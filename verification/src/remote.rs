//! The remote path: what can go wrong on it, how the reply of the service
//! is read, and how the blocks it proposes are brought into the form of
//! the plan.

use crate::clock::{minutes_span, parsed_minute_of_day, TimeOfDay};
use crate::envelope::{find_output_text, output_text, ResponseRoot};
use crate::model::{ui_block_views, UiBlock, UiBlockView};
use vstd::prelude::*;

verus! {

/// Why the remote path gave no plan. None of these reaches the caller of
/// the planner: each makes it plan locally.
#[derive(Clone, Debug, PartialEq, Eq)]
pub enum RemoteError {
    /// No credential for the service is configured.
    MissingCredential,
    /// The service could not be reached or did not answer with success;
    /// `body` is what it said.
    TransportFailure { body: String },
    /// The answer holds no list of output items with generated text.
    MalformedEnvelope,
    /// The generated text is not a plan; `raw` is the text and `diagnostic`
    /// what the parser said of it.
    UnparsableContent { raw: String, diagnostic: String },
}

/// The view of a [`RemoteError`].
pub enum RemoteErrorView {
    MissingCredential,
    TransportFailure { body: Seq<char> },
    MalformedEnvelope,
    UnparsableContent { raw: Seq<char>, diagnostic: Seq<char> },
}

impl View for RemoteError {
    type V = RemoteErrorView;

    open spec fn view(&self) -> RemoteErrorView {
        match self {
            RemoteError::MissingCredential => RemoteErrorView::MissingCredential,
            RemoteError::TransportFailure { body } => RemoteErrorView::TransportFailure {
                body: body@,
            },
            RemoteError::MalformedEnvelope => RemoteErrorView::MalformedEnvelope,
            RemoteError::UnparsableContent { raw, diagnostic } => {
                RemoteErrorView::UnparsableContent { raw: raw@, diagnostic: diagnostic@ }
            },
        }
    }
}

/// The words that describe an error in a log.
pub open spec fn description(error: RemoteErrorView) -> Seq<char> {
    match error {
        RemoteErrorView::MissingCredential => "no credential for the remote service is configured"@,
        RemoteErrorView::TransportFailure { body } => "the remote service failed: "@ + body,
        RemoteErrorView::MalformedEnvelope => "the remote answer holds no generated text"@,
        RemoteErrorView::UnparsableContent { raw, diagnostic } => "the generated text is not a plan: "@
            + diagnostic + "\nreceived text:\n"@ + raw,
    }
}

impl RemoteError {
    /// Describes the error for a log.
    pub fn describe(&self) -> (words: String)
        ensures
            words@ == description(self@),
    {
        match self {
            RemoteError::MissingCredential => String::from_str(
                "no credential for the remote service is configured",
            ),
            RemoteError::TransportFailure { body } => {
                let mut words = String::from_str("the remote service failed: ");
                words.append(body.as_str());
                words
            },
            RemoteError::MalformedEnvelope => String::from_str(
                "the remote answer holds no generated text",
            ),
            RemoteError::UnparsableContent { raw, diagnostic } => {
                let mut words = String::from_str("the generated text is not a plan: ");
                words.append(diagnostic.as_str());
                words.append("\nreceived text:\n");
                words.append(raw.as_str());
                words
            },
        }
    }
}

/// What came back from sending the request.
#[derive(Clone, Debug, PartialEq, Eq)]
pub enum TransportReply {
    /// The service could not be reached, or answered with a status other
    /// than success; `body` is what it said.
    Failure { body: String },
    /// The service answered with success. `envelope` is the answer, or
    /// nothing where the answer was no envelope at all.
    Success { envelope: Option<ResponseRoot> },
}

/// A block as the service proposes it.
#[derive(Clone, Debug, PartialEq, Eq)]
pub struct AiBlock {
    pub start: String,
    pub end: String,
    pub subject: String,
}

/// The plan that the service proposes.
#[derive(Clone, Debug, PartialEq, Eq)]
pub struct AiPlan {
    pub blocks: Vec<AiBlock>,
}

/// The generated text that a reply carries, or the error that it amounts
/// to.
pub open spec fn reply_text(reply: TransportReply) -> Result<Seq<char>, RemoteErrorView> {
    match reply {
        TransportReply::Failure { body } => Err(RemoteErrorView::TransportFailure { body: body@ }),
        TransportReply::Success { envelope: None } => Err(RemoteErrorView::MalformedEnvelope),
        TransportReply::Success { envelope: Some(root) } => match output_text(root.output@) {
            Some(text) => Ok(text),
            None => Err(RemoteErrorView::MalformedEnvelope),
        },
    }
}

/// The view of a text or an error.
pub open spec fn text_or_error(result: Result<String, RemoteError>) -> Result<
    Seq<char>,
    RemoteErrorView,
> {
    match result {
        Ok(text) => Ok(text@),
        Err(error) => Err(error@),
    }
}

/// The view of a list of blocks or an error.
pub open spec fn blocks_or_error(result: Result<Vec<UiBlock>, RemoteError>) -> Result<
    Seq<UiBlockView>,
    RemoteErrorView,
> {
    match result {
        Ok(blocks) => Ok(ui_block_views(blocks@)),
        Err(error) => Err(error@),
    }
}

/// Reads the generated text out of a reply. A failed transport and an
/// answer without generated text are errors.
pub fn read_reply(reply: &TransportReply) -> (text: Result<String, RemoteError>)
    ensures
        text_or_error(text) == reply_text(*reply),
{
    match reply {
        TransportReply::Failure { body } => Err(
            RemoteError::TransportFailure { body: body.clone() },
        ),
        TransportReply::Success { envelope: None } => Err(RemoteError::MalformedEnvelope),
        TransportReply::Success { envelope: Some(root) } => match find_output_text(root) {
            Some(text) => Ok(text),
            None => Err(RemoteError::MalformedEnvelope),
        },
    }
}

/// The length of a proposed block in minutes, from the times it names. A
/// start that is no time counts as `fallback`; an end that is no time
/// counts as the start. An end before the start gives zero.
pub open spec fn span_between(start: Option<int>, end: Option<int>, fallback: int) -> int {
    let from = match start {
        Some(minute) => minute,
        None => fallback,
    };
    let to = match end {
        Some(minute) => minute,
        None => from,
    };
    minutes_span(from, to)
}

/// The minutes of a proposed block, derived from the texts of its times.
pub open spec fn derived_minutes(start: Seq<char>, end: Seq<char>, fallback: int) -> int {
    span_between(parsed_minute_of_day(start), parsed_minute_of_day(end), fallback)
}

/// The proposed blocks in the form of the plan: the texts as they came, and
/// the minutes derived from the times.
pub open spec fn normalized(blocks: Seq<AiBlock>, fallback: int) -> Seq<UiBlockView> {
    Seq::new(
        blocks.len(),
        |i: int|
            UiBlockView {
                start: blocks[i].start@,
                end: blocks[i].end@,
                subject: blocks[i].subject@,
                minutes: derived_minutes(blocks[i].start@, blocks[i].end@, fallback),
            },
    )
}

/// The view of an optional time.
pub open spec fn optional_minute(time: Option<TimeOfDay>) -> Option<int> {
    match time {
        Some(t) => Some(t@),
        None => None,
    }
}

/// Computes the length of a proposed block from its times, as far as they
/// could be read.
pub fn span_minutes(start: Option<TimeOfDay>, end: Option<TimeOfDay>, fallback: TimeOfDay) -> (minutes:
    u32)
    ensures
        minutes == span_between(optional_minute(start), optional_minute(end), fallback@),
{
    let from = match start {
        Some(time) => time,
        None => fallback,
    };
    let to = match end {
        Some(time) => time,
        None => from,
    };
    from.minutes_until(&to)
}

/// Brings one proposed block into the form of the plan. Its minutes are
/// computed from its times, whatever the service meant them to be.
pub fn normalize_block(block: &AiBlock, fallback: TimeOfDay) -> (placed: UiBlock)
    ensures
        placed.start@ == block.start@,
        placed.end@ == block.end@,
        placed.subject@ == block.subject@,
        placed.minutes == derived_minutes(block.start@, block.end@, fallback@),
        placed.minutes == span_between(
            parsed_minute_of_day(block.start@),
            parsed_minute_of_day(block.end@),
            fallback@,
        ),
{
    let start = TimeOfDay::parse(block.start.as_str());
    let end = TimeOfDay::parse(block.end.as_str());
    UiBlock {
        start: block.start.clone(),
        end: block.end.clone(),
        subject: block.subject.clone(),
        minutes: span_minutes(start, end, fallback),
    }
}

/// Brings the proposed plan into the form of the plan.
pub fn normalize_plan(plan: &AiPlan, fallback: TimeOfDay) -> (blocks: Vec<UiBlock>)
    ensures
        ui_block_views(blocks@) == normalized(plan.blocks@, fallback@),
{
    let mut blocks: Vec<UiBlock> = Vec::new();
    let mut i: usize = 0;
    while i < plan.blocks.len()
        invariant
            i <= plan.blocks@.len(),
            blocks@.len() == i,
            forall|j: int|
                0 <= j < i ==> (#[trigger] blocks@[j])@ == normalized(plan.blocks@, fallback@)[j],
        decreases plan.blocks@.len() - i,
    {
        blocks.push(normalize_block(&plan.blocks[i], fallback));
        i += 1;
    }
    assert(ui_block_views(blocks@) =~= normalized(plan.blocks@, fallback@));
    blocks
}

/// The outcome of decoding the generated text: the plan in its final form,
/// or the error that holds the text and what the parser said.
pub open spec fn plan_outcome(raw: Seq<char>, decoded: Result<AiPlan, String>, fallback: int) -> Result<
    Seq<UiBlockView>,
    RemoteErrorView,
> {
    match decoded {
        Ok(plan) => Ok(normalized(plan.blocks@, fallback)),
        Err(diagnostic) => Err(
            RemoteErrorView::UnparsableContent { raw: raw, diagnostic: diagnostic@ },
        ),
    }
}

/// Turns decoded text into blocks. `decoded` is what the parser made of
/// `raw`: the proposed plan, or its complaint.
pub fn read_plan(raw: &str, decoded: &Result<AiPlan, String>, fallback: TimeOfDay) -> (blocks:
    Result<Vec<UiBlock>, RemoteError>)
    ensures
        blocks_or_error(blocks) == plan_outcome(raw@, *decoded, fallback@),
{
    match decoded {
        Ok(plan) => Ok(normalize_plan(plan, fallback)),
        Err(diagnostic) => Err(
            RemoteError::UnparsableContent {
                raw: String::from_str(raw),
                diagnostic: diagnostic.clone(),
            },
        ),
    }
}

} // verus!
