//! The answer of the remote service: an envelope of output items, each with
//! a list of typed content entries, one of which carries the plan as text.

use vstd::prelude::*;

verus! {

/// One entry of the content of an output item.
#[derive(Clone, Debug, PartialEq, Eq)]
pub struct ResponseContentItem {
    /// The kind of the entry; `output_text` marks generated text.
    pub content_type: String,
    pub text: String,
}

/// One item of the output of the service.
#[derive(Clone, Debug, PartialEq, Eq)]
pub struct ResponseOutputItem {
    pub item_type: String,
    pub content: Vec<ResponseContentItem>,
}

/// The envelope around the answer of the service.
#[derive(Clone, Debug, PartialEq, Eq)]
pub struct ResponseRoot {
    pub output: Vec<ResponseOutputItem>,
}

/// The kind of a content entry that carries generated text.
pub open spec fn output_text_tag() -> Seq<char> {
    "output_text"@
}

/// Whether a content entry carries generated text.
pub open spec fn is_output_text(entry: ResponseContentItem) -> bool {
    entry.content_type@ == output_text_tag()
}

/// The text of the first entry that carries generated text, if any does.
pub open spec fn first_text(content: Seq<ResponseContentItem>) -> Option<Seq<char>>
    decreases content.len(),
{
    if content.len() == 0 {
        None
    } else if is_output_text(content[0]) {
        Some(content[0].text@)
    } else {
        first_text(content.drop_first())
    }
}

/// The generated text of the envelope: that of the first output item that
/// has an entry with generated text, if any has.
pub open spec fn output_text(output: Seq<ResponseOutputItem>) -> Option<Seq<char>>
    decreases output.len(),
{
    if output.len() == 0 {
        None
    } else if first_text(output[0].content@) is Some {
        first_text(output[0].content@)
    } else {
        output_text(output.drop_first())
    }
}

/// An item has generated text exactly if one of its entries is tagged so.
pub proof fn lemma_first_text_some(content: Seq<ResponseContentItem>)
    ensures
        first_text(content) is Some <==> exists|i: int|
            0 <= i < content.len() && is_output_text(#[trigger] content[i]),
    decreases content.len(),
{
    if content.len() == 0 {
    } else if is_output_text(content[0]) {
    } else {
        let rest = content.drop_first();
        lemma_first_text_some(rest);
        if first_text(rest) is Some {
            let i = choose|i: int| 0 <= i < rest.len() && is_output_text(#[trigger] rest[i]);
            assert(is_output_text(content[i + 1]));
        }
        if exists|i: int| 0 <= i < content.len() && is_output_text(#[trigger] content[i]) {
            let i = choose|i: int| 0 <= i < content.len() && is_output_text(#[trigger] content[i]);
            assert(is_output_text(rest[i - 1]));
        }
    }
}

/// Finds the first entry with generated text in the content of one item.
pub fn find_text(content: &Vec<ResponseContentItem>) -> (text: Option<String>)
    ensures
        crate::model::optional_text(text) == first_text(content@),
{
    let tag = String::from_str("output_text");
    let mut i: usize = 0;
    assert(content@.skip(0) =~= content@);
    while i < content.len()
        invariant
            i <= content@.len(),
            tag@ == output_text_tag(),
            first_text(content@) == first_text(content@.skip(i as int)),
        decreases content@.len() - i,
    {
        let entry = &content[i];
        if entry.content_type == tag {
            return Some(entry.text.clone());
        }
        proof {
            assert(content@.skip(i as int).drop_first() =~= content@.skip(i + 1));
        }
        i += 1;
    }
    None
}

/// Finds the generated text of an envelope.
pub fn find_output_text(root: &ResponseRoot) -> (text: Option<String>)
    ensures
        crate::model::optional_text(text) == output_text(root.output@),
{
    let mut i: usize = 0;
    assert(root.output@.skip(0) =~= root.output@);
    while i < root.output.len()
        invariant
            i <= root.output@.len(),
            output_text(root.output@) == output_text(root.output@.skip(i as int)),
        decreases root.output@.len() - i,
    {
        let found = find_text(&root.output[i].content);
        if found.is_some() {
            return found;
        }
        proof {
            assert(root.output@.skip(i as int).drop_first() =~= root.output@.skip(i + 1));
        }
        i += 1;
    }
    None
}

} // verus!
