//! The course of one request: whether the remote service is asked, what is
//! done with its reply, and the local plan that every failure falls back
//! to. The caller sends what a step asks to be sent and hands back what
//! came of it; every decision is taken here.

use crate::clock::{parsed_minute_of_day, TimeOfDay};
use crate::model::{
    optional_text, subject_views, ui_block_views, Subject, UiBlock, UiBlockView,
};
use crate::placement::{blocks_to_ui_blocks, placed};
use crate::prompt::{build_request, instruction, model_name, RemoteRequest, MAX_OUTPUT_TOKENS};
use crate::remote::{
    plan_outcome, read_plan, read_reply, reply_text, AiPlan, RemoteError, RemoteErrorView,
    TransportReply,
};
use crate::schedule::{generate_schedule, schedule};
use vstd::prelude::*;

verus! {

/// Which path made the plan.
#[derive(Clone, Copy, Debug, PartialEq, Eq)]
pub enum PlanMode {
    Remote,
    Local,
}

/// The name of a mode as it is shown to the caller.
pub open spec fn mode_text(mode: PlanMode) -> Seq<char> {
    match mode {
        PlanMode::Remote => "remote"@,
        PlanMode::Local => "local"@,
    }
}

impl PlanMode {
    /// The name of the mode as it is shown to the caller.
    pub fn as_text(&self) -> (text: &'static str)
        ensures
            text@ == mode_text(*self),
    {
        match self {
            PlanMode::Remote => "remote",
            PlanMode::Local => "local",
        }
    }
}

/// What is asked for: the length of the day, where it starts, the
/// subjects, the focus, and whether the remote service may be asked.
#[derive(Clone, Debug, PartialEq, Eq)]
pub struct PlanRequest {
    /// The length of the day in whole minutes.
    pub total_minutes: u32,
    /// The length of the day in hours, written with two decimal places.
    pub total_hours_text: String,
    /// The start of the day as hours, colon, minutes. A text that is no
    /// time of day stands for eight o'clock.
    pub start_time: String,
    pub subjects: Vec<Subject>,
    pub focus: Option<String>,
    pub use_remote: bool,
}

/// The plan, and the path that made it.
#[derive(Clone, Debug, PartialEq, Eq)]
pub struct PlanResponse {
    pub mode: PlanMode,
    pub blocks: Vec<UiBlock>,
}

/// The end of a request: the plan, and, where the remote path was tried
/// and gave none, the reason, for the log.
#[derive(Clone, Debug, PartialEq, Eq)]
pub struct PlanOutcome {
    pub response: PlanResponse,
    pub fallback_cause: Option<RemoteError>,
}

/// What is to be done next for a request.
#[derive(Clone, Debug, PartialEq, Eq)]
pub enum NextStep {
    /// Send `request` to the service, authorised by `credential`.
    Send { request: RemoteRequest, credential: String },
    /// Decode `text` as a proposed plan.
    Decode { text: String },
    /// The request is done.
    Finish(PlanOutcome),
}

/// Takes the decisions of a request. The credential for the remote service
/// is given once, when the orchestrator is made.
#[derive(Clone, Debug, PartialEq, Eq)]
pub struct Orchestrator {
    pub credential: Option<String>,
}

/// The minute of the day at which the day of a request starts.
pub open spec fn start_of(request: PlanRequest) -> int {
    match parsed_minute_of_day(request.start_time@) {
        Some(minute) => minute,
        None => 480,
    }
}

/// The blocks of the local plan for a request.
pub open spec fn local_blocks(request: PlanRequest) -> Seq<UiBlockView> {
    placed(
        schedule(
            subject_views(request.subjects@),
            request.total_minutes as int,
            optional_text(request.focus),
        ),
        start_of(request),
    )
}

/// The view of an optional error.
pub open spec fn optional_error(error: Option<RemoteError>) -> Option<RemoteErrorView> {
    match error {
        Some(e) => Some(e@),
        None => None,
    }
}

/// Whether an outcome is the local plan for the request, with `cause` as
/// the reason why the remote path gave none.
pub open spec fn is_local(
    outcome: PlanOutcome,
    request: PlanRequest,
    cause: Option<RemoteErrorView>,
) -> bool {
    &&& outcome.response.mode == PlanMode::Local
    &&& ui_block_views(outcome.response.blocks@) == local_blocks(request)
    &&& optional_error(outcome.fallback_cause) == cause
}

/// Whether an outcome is the plan of the remote path with these blocks.
pub open spec fn is_remote(outcome: PlanOutcome, blocks: Seq<UiBlockView>) -> bool {
    &&& outcome.response.mode == PlanMode::Remote
    &&& ui_block_views(outcome.response.blocks@) == blocks
    &&& outcome.fallback_cause is None
}

/// Whether a step ends the request with the local plan, with `cause` as
/// the reason why the remote path gave none.
pub open spec fn finishes_locally(
    step: NextStep,
    request: PlanRequest,
    cause: Option<RemoteErrorView>,
) -> bool {
    step matches NextStep::Finish(outcome) && is_local(outcome, request, cause)
}

/// Whether a step asks to decode `text`.
pub open spec fn decodes(step: NextStep, text: Seq<char>) -> bool {
    step matches NextStep::Decode { text: found } && found@ == text
}

/// Whether a step asks to send the request that belongs to `request`,
/// authorised by `credential`.
pub open spec fn sends(step: NextStep, request: PlanRequest, credential: Seq<char>) -> bool {
    step matches NextStep::Send { request: sent, credential: used } && {
        &&& used@ == credential
        &&& sent.model@ == model_name()
        &&& sent.max_output_tokens == MAX_OUTPUT_TOKENS
        &&& sent.input@ == instruction(
            subject_views(request.subjects@),
            request.total_hours_text@,
            start_of(request),
            optional_text(request.focus),
        )
    }
}

/// A copy of a list of subjects.
fn copy_subjects(subjects: &Vec<Subject>) -> (copy: Vec<Subject>)
    ensures
        subject_views(copy@) == subject_views(subjects@),
{
    let mut copy: Vec<Subject> = Vec::new();
    let mut i: usize = 0;
    while i < subjects.len()
        invariant
            i <= subjects@.len(),
            copy@.len() == i,
            forall|j: int| 0 <= j < i ==> (#[trigger] copy@[j])@ == subjects@[j]@,
        decreases subjects@.len() - i,
    {
        let subject = &subjects[i];
        copy.push(
            Subject {
                name: subject.name.clone(),
                priority: subject.priority,
                min_minutes: subject.min_minutes,
            },
        );
        i += 1;
    }
    assert(subject_views(copy@) =~= subject_views(subjects@));
    copy
}

/// A copy of an optional text.
fn copy_optional_text(text: &Option<String>) -> (copy: Option<String>)
    ensures
        optional_text(copy) == optional_text(*text),
{
    match text {
        Some(t) => Some(t.clone()),
        None => None,
    }
}

/// Reads the start of the day of a request; a text that is no time of day
/// gives eight o'clock.
pub fn start_time(request: &PlanRequest) -> (start: TimeOfDay)
    ensures
        start@ == start_of(*request),
{
    TimeOfDay::parse_or(request.start_time.as_str(), TimeOfDay::default_start())
}

/// Makes the local plan for a request: allocates the minutes and places the
/// blocks on the clock. This cannot fail; it may give no block.
pub fn plan_locally(request: &PlanRequest) -> (response: PlanResponse)
    ensures
        response.mode == PlanMode::Local,
        ui_block_views(response.blocks@) == local_blocks(*request),
{
    let blocks = generate_schedule(
        copy_subjects(&request.subjects),
        request.total_minutes,
        copy_optional_text(&request.focus),
    );
    PlanResponse { mode: PlanMode::Local, blocks: blocks_to_ui_blocks(blocks, start_time(request)) }
}

/// Ends a request with the local plan, keeping the reason for the log.
pub fn fall_back(request: &PlanRequest, cause: Option<RemoteError>) -> (outcome: PlanOutcome)
    ensures
        is_local(outcome, *request, optional_error(cause)),
{
    PlanOutcome { response: plan_locally(request), fallback_cause: cause }
}

impl Orchestrator {
    /// An orchestrator with the credential for the remote service, if one
    /// is configured.
    pub fn new(credential: Option<String>) -> (orchestrator: Orchestrator)
        ensures
            orchestrator.credential == credential,
    {
        Orchestrator { credential }
    }

    /// Starts a request. A request that does not ask for the remote service
    /// ends at once with the local plan; so does one that asks for it where
    /// no credential is configured. Otherwise the request to the service is
    /// to be sent.
    pub fn begin(&self, request: &PlanRequest) -> (step: NextStep)
        ensures
            !request.use_remote ==> finishes_locally(step, *request, None),
            request.use_remote && self.credential is None ==> finishes_locally(
                step,
                *request,
                Some(RemoteErrorView::MissingCredential),
            ),
            request.use_remote && self.credential is Some ==> sends(
                step,
                *request,
                self.credential->0@,
            ),
    {
        if !request.use_remote {
            return NextStep::Finish(fall_back(request, None));
        }
        match &self.credential {
            None => NextStep::Finish(fall_back(request, Some(RemoteError::MissingCredential))),
            Some(credential) => NextStep::Send {
                request: build_request(
                    &request.subjects,
                    request.total_hours_text.as_str(),
                    start_time(request),
                    &request.focus,
                ),
                credential: credential.clone(),
            },
        }
    }

    /// Takes the reply of the service. A reply that carries generated text
    /// asks for that text to be decoded; every other reply ends the request
    /// with the local plan.
    pub fn on_reply(&self, request: &PlanRequest, reply: &TransportReply) -> (step: NextStep)
        ensures
            match reply_text(*reply) {
                Ok(text) => decodes(step, text),
                Err(error) => finishes_locally(step, *request, Some(error)),
            },
    {
        match read_reply(reply) {
            Ok(text) => NextStep::Decode { text },
            Err(error) => NextStep::Finish(fall_back(request, Some(error))),
        }
    }

    /// Takes what decoding the generated text `raw` gave. A proposed plan
    /// ends the request in remote mode, with the minutes of every block
    /// derived from its times; a text that is no plan ends it with the
    /// local plan.
    pub fn on_decoded(&self, request: &PlanRequest, raw: &str, decoded: &Result<AiPlan, String>) -> (outcome:
        PlanOutcome)
        ensures
            match plan_outcome(raw@, *decoded, start_of(*request)) {
                Ok(blocks) => is_remote(outcome, blocks),
                Err(error) => is_local(outcome, *request, Some(error)),
            },
    {
        match read_plan(raw, decoded, start_time(request)) {
            Ok(blocks) => PlanOutcome {
                response: PlanResponse { mode: PlanMode::Remote, blocks },
                fallback_cause: None,
            },
            Err(error) => fall_back(request, Some(error)),
        }
    }
}

} // verus!
