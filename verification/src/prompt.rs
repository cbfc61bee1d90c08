//! The request that asks the remote text-generation service for a plan:
//! the instruction text and the values that go with it on the wire.

use crate::clock::{clock_text, TimeOfDay};
use crate::model::{optional_text, subject_views, Subject, SubjectView};
use crate::text::{decimal_text, push_decimal};
use vstd::prelude::*;

verus! {

/// The most tokens that the service may generate for one plan.
pub const MAX_OUTPUT_TOKENS: u32 = 512;

/// What is sent to the service: the model to use, the instruction, and the
/// bound on the length of the answer.
#[derive(Clone, Debug, PartialEq, Eq)]
pub struct RemoteRequest {
    pub model: String,
    pub input: String,
    pub max_output_tokens: u32,
}

/// The name of the model that is asked.
pub open spec fn model_name() -> Seq<char> {
    "gpt-4.1-mini"@
}

/// The word that stands for the focus where the day has none.
pub open spec fn no_focus() -> Seq<char> {
    "none"@
}

/// The line of the instruction that describes one subject.
pub open spec fn subject_line(subject: SubjectView) -> Seq<char> {
    "- "@ + subject.name + " (priority "@ + decimal_text(subject.priority as nat)
        + ", minimum "@ + decimal_text(subject.min_minutes as nat) + " min)\n"@
}

/// The lines that describe the subjects, in their order.
pub open spec fn subject_lines(subjects: Seq<SubjectView>) -> Seq<char>
    decreases subjects.len(),
{
    if subjects.len() == 0 {
        Seq::empty()
    } else {
        subject_lines(subjects.drop_last()) + subject_line(subjects.last())
    }
}

/// The instruction: the data of the day, the rules of a good plan, and the
/// form of the answer, a single JSON object with the list of blocks.
pub open spec fn instruction(
    subjects: Seq<SubjectView>,
    hours: Seq<char>,
    start: int,
    focus: Option<Seq<char>>,
) -> Seq<char> {
    "You are an expert study planner.\nBuild a detailed study routine FOR TODAY as a sequence of time blocks.\n\nData:\n- Total study hours: "@
        + hours + "\n- Start time: "@ + clock_text(start)
        + "\n- Subjects (name, priority, minimum minutes):\n"@ + subject_lines(subjects)
        + "\n- Main focus subject: "@ + (match focus {
        Some(name) => name,
        None => no_focus(),
    })
        + "\n\nRules:\n- Respect the total study time.\n- Give more time to subjects of higher priority and to the focus subject.\n- Do not create blocks shorter than 20 minutes.\n- Do not keep the same subject for more than 90 minutes in a row.\n- Short breaks (subject \"Break\") may be included, but they count inside the total hours.\n- Use consistent times, starting from the start time.\n\nAnswer format:\n- Answer ONLY with one VALID JSON object, with no text before or after it.\n- Do NOT use ``` or markdown.\n- Exact structure:\n{\n  \"blocks\": [\n    { \"start\": \"08:00\", \"end\": \"09:00\", \"subject\": \"Mathematics\" }\n  ]\n}"@
}

/// Appends the line that describes one subject.
fn push_subject_line(out: &mut String, subject: &Subject)
    ensures
        final(out)@ == old(out)@ + subject_line(subject@),
{
    out.append("- ");
    out.append(subject.name.as_str());
    out.append(" (priority ");
    push_decimal(out, subject.priority);
    out.append(", minimum ");
    push_decimal(out, subject.min_minutes);
    out.append(" min)\n");
    assert(final(out)@ =~= old(out)@ + subject_line(subject@));
}

/// Writes the instruction for the remote service. `hours` is the length of
/// the day in hours as it is to be shown, with two decimal places.
pub fn build_prompt(
    subjects: &Vec<Subject>,
    hours: &str,
    start_time: TimeOfDay,
    focus: &Option<String>,
) -> (prompt: String)
    ensures
        prompt@ == instruction(
            subject_views(subjects@),
            hours@,
            start_time@,
            optional_text(*focus),
        ),
{
    let ghost views = subject_views(subjects@);
    let mut lines = String::new();
    let mut i: usize = 0;
    assert(views.take(0) =~= Seq::<SubjectView>::empty());
    while i < subjects.len()
        invariant
            i <= subjects@.len(),
            views == subject_views(subjects@),
            lines@ == subject_lines(views.take(i as int)),
        decreases subjects@.len() - i,
    {
        proof {
            assert(views.take(i + 1).drop_last() =~= views.take(i as int));
        }
        push_subject_line(&mut lines, &subjects[i]);
        i += 1;
    }
    assert(views.take(i as int) =~= views);
    let mut prompt = String::new();
    prompt.append(
        "You are an expert study planner.\nBuild a detailed study routine FOR TODAY as a sequence of time blocks.\n\nData:\n- Total study hours: ",
    );
    prompt.append(hours);
    prompt.append("\n- Start time: ");
    prompt.append(start_time.to_text().as_str());
    prompt.append("\n- Subjects (name, priority, minimum minutes):\n");
    prompt.append(lines.as_str());
    prompt.append("\n- Main focus subject: ");
    match focus {
        Some(name) => prompt.append(name.as_str()),
        None => prompt.append("none"),
    }
    prompt.append(
        "\n\nRules:\n- Respect the total study time.\n- Give more time to subjects of higher priority and to the focus subject.\n- Do not create blocks shorter than 20 minutes.\n- Do not keep the same subject for more than 90 minutes in a row.\n- Short breaks (subject \"Break\") may be included, but they count inside the total hours.\n- Use consistent times, starting from the start time.\n\nAnswer format:\n- Answer ONLY with one VALID JSON object, with no text before or after it.\n- Do NOT use ``` or markdown.\n- Exact structure:\n{\n  \"blocks\": [\n    { \"start\": \"08:00\", \"end\": \"09:00\", \"subject\": \"Mathematics\" }\n  ]\n}",
    );
    assert(prompt@ =~= instruction(views, hours@, start_time@, optional_text(*focus)));
    prompt
}

/// Puts the request together: the model, the instruction and the bound on
/// the answer.
pub fn build_request(
    subjects: &Vec<Subject>,
    hours: &str,
    start_time: TimeOfDay,
    focus: &Option<String>,
) -> (request: RemoteRequest)
    ensures
        request.model@ == model_name(),
        request.input@ == instruction(
            subject_views(subjects@),
            hours@,
            start_time@,
            optional_text(*focus),
        ),
        request.max_output_tokens == MAX_OUTPUT_TOKENS,
{
    RemoteRequest {
        model: String::from_str("gpt-4.1-mini"),
        input: build_prompt(subjects, hours, start_time, focus),
        max_output_tokens: MAX_OUTPUT_TOKENS,
    }
}

} // verus!
