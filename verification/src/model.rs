//! The values that a plan is made from and made of, with their
//! mathematical views.

use vstd::prelude::*;

verus! {

/// A subject to study, as the caller names it.
#[derive(Clone, Debug, PartialEq, Eq)]
pub struct Subject {
    pub name: String,
    /// Relative weight in the distribution of spare time.
    pub priority: u32,
    /// Minutes that the subject should get at least.
    pub min_minutes: u32,
}

/// A subject as the allocation sees it: a name, a weight and a minimum.
pub struct SubjectView {
    pub name: Seq<char>,
    pub priority: int,
    pub min_minutes: int,
}

impl View for Subject {
    type V = SubjectView;

    open spec fn view(&self) -> SubjectView {
        SubjectView {
            name: self.name@,
            priority: self.priority as int,
            min_minutes: self.min_minutes as int,
        }
    }
}

/// A subject inside the allocation: its priority counts twice where the
/// subject is the focus of the day, and its minimum may have been scaled.
#[derive(Clone, Debug, PartialEq, Eq)]
pub struct WeightedSubject {
    pub name: String,
    pub priority: u32,
    pub focused: bool,
    pub min_minutes: u32,
}

impl WeightedSubject {
    /// The weight of the subject: its priority, doubled for the focus.
    pub open spec fn spec_weight(&self) -> int {
        if self.focused {
            2 * self.priority
        } else {
            self.priority as int
        }
    }

    /// The weight of the subject: its priority, doubled for the focus.
    pub fn weight(&self) -> (weight: u64)
        ensures
            weight == self.spec_weight(),
            weight <= 2 * u32::MAX,
    {
        if self.focused {
            2 * (self.priority as u64)
        } else {
            self.priority as u64
        }
    }
}

impl View for WeightedSubject {
    type V = SubjectView;

    open spec fn view(&self) -> SubjectView {
        SubjectView {
            name: self.name@,
            priority: self.spec_weight(),
            min_minutes: self.min_minutes as int,
        }
    }
}

/// A share of the day for one subject, not yet placed on the clock.
#[derive(Clone, Debug, PartialEq, Eq)]
pub struct Block {
    pub subject_name: String,
    pub minutes: u32,
}

/// The view of a [`Block`].
pub struct BlockView {
    pub subject_name: Seq<char>,
    pub minutes: int,
}

impl View for Block {
    type V = BlockView;

    open spec fn view(&self) -> BlockView {
        BlockView { subject_name: self.subject_name@, minutes: self.minutes as int }
    }
}

/// A block of the plan with its place on the clock.
#[derive(Clone, Debug, PartialEq, Eq)]
pub struct UiBlock {
    /// Start of the block, as hours, colon, minutes.
    pub start: String,
    /// End of the block, in the same form.
    pub end: String,
    pub subject: String,
    pub minutes: u32,
}

/// The view of a [`UiBlock`].
pub struct UiBlockView {
    pub start: Seq<char>,
    pub end: Seq<char>,
    pub subject: Seq<char>,
    pub minutes: int,
}

impl View for UiBlock {
    type V = UiBlockView;

    open spec fn view(&self) -> UiBlockView {
        UiBlockView {
            start: self.start@,
            end: self.end@,
            subject: self.subject@,
            minutes: self.minutes as int,
        }
    }
}

/// The views of a sequence of subjects.
pub open spec fn subject_views(subjects: Seq<Subject>) -> Seq<SubjectView> {
    subjects.map_values(|s: Subject| s@)
}

/// The views of a sequence of weighted subjects.
pub open spec fn weighted_views(subjects: Seq<WeightedSubject>) -> Seq<SubjectView> {
    subjects.map_values(|s: WeightedSubject| s@)
}

/// The views of a sequence of blocks.
pub open spec fn block_views(blocks: Seq<Block>) -> Seq<BlockView> {
    blocks.map_values(|b: Block| b@)
}

/// The views of a sequence of placed blocks.
pub open spec fn ui_block_views(blocks: Seq<UiBlock>) -> Seq<UiBlockView> {
    blocks.map_values(|b: UiBlock| b@)
}

/// The characters of an optional text.
pub open spec fn optional_text(text: Option<String>) -> Option<Seq<char>> {
    match text {
        Some(t) => Some(t@),
        None => None,
    }
}

/// The entries of a sequence of machine integers, as integers.
pub open spec fn ints(values: Seq<u32>) -> Seq<int> {
    values.map_values(|v: u32| v as int)
}

} // verus!
