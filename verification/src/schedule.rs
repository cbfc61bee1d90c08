//! The plan of a day without the clock: which subjects get a block, in
//! what order, and how many minutes each.

use crate::allot::{
    allot_minutes, distributed, distributes, lemma_planned_total, lemma_top_ups_total,
    planned_minutes, remaining_minutes, shares, shortfall, top_ups,
};
use crate::budget::{
    apply_focus_bonus, fit_to_budget, fitted, minimums, sum_min, total_weight, with_focus_bonus,
    SHORTEST_BLOCK,
};
use crate::model::{
    block_views, ints, optional_text, subject_views, weighted_views, Block, BlockView, Subject,
    SubjectView, WeightedSubject,
};
use crate::sums::{lemma_total_at_most, lemma_total_non_negative, total};
use vstd::prelude::*;

verus! {

/// One block for every subject that takes part, in their order, with the
/// minutes planned for it.
pub open spec fn allotted_blocks(subjects: Seq<SubjectView>, budget: int) -> Seq<BlockView> {
    Seq::new(
        subjects.len(),
        |i: int|
            BlockView {
                subject_name: subjects[i].name,
                minutes: planned_minutes(subjects, budget)[i],
            },
    )
}

/// Whether a block is long enough to stay in the plan.
pub open spec fn long_enough(block: BlockView) -> bool {
    block.minutes >= SHORTEST_BLOCK
}

/// The blocks that are long enough, in their order.
pub open spec fn without_short(blocks: Seq<BlockView>) -> Seq<BlockView> {
    blocks.filter(|b: BlockView| long_enough(b))
}

/// The blocks of the plan before the short ones are dropped. No subject or
/// no time gives no block. Otherwise the focus bonus is applied, the
/// subjects are fitted to the budget, and the budget is distributed.
pub open spec fn unfiltered_schedule(
    subjects: Seq<SubjectView>,
    budget: int,
    focus: Option<Seq<char>>,
) -> Seq<BlockView> {
    if subjects.len() == 0 || budget == 0 {
        Seq::empty()
    } else {
        allotted_blocks(fitted(with_focus_bonus(subjects, focus), budget), budget)
    }
}

/// The blocks of the plan.
pub open spec fn schedule(subjects: Seq<SubjectView>, budget: int, focus: Option<Seq<char>>) -> Seq<
    BlockView,
> {
    without_short(unfiltered_schedule(subjects, budget, focus))
}

/// The minutes of the blocks, in order.
pub open spec fn block_minutes(blocks: Seq<BlockView>) -> Seq<int> {
    blocks.map_values(|b: BlockView| b.minutes)
}

/// Makes one block for every subject that takes part.
pub fn allot_blocks(subjects: &Vec<WeightedSubject>, budget: u32) -> (blocks: Vec<Block>)
    requires
        sum_min(weighted_views(subjects@)) <= budget,
    ensures
        block_views(blocks@) == allotted_blocks(weighted_views(subjects@), budget as int),
{
    let minutes = allot_minutes(subjects, budget);
    let ghost views = weighted_views(subjects@);
    let ghost plan = planned_minutes(views, budget as int);
    let mut blocks: Vec<Block> = Vec::new();
    let mut i: usize = 0;
    assert(minutes@.len() == subjects@.len()) by {
        assert(ints(minutes@).len() == minutes@.len());
        assert(plan.len() == views.len());
    }
    while i < subjects.len()
        invariant
            i <= subjects@.len(),
            views == weighted_views(subjects@),
            plan == planned_minutes(views, budget as int),
            ints(minutes@) == plan,
            minutes@.len() == subjects@.len(),
            blocks@.len() == i,
            forall|j: int|
                0 <= j < i ==> (#[trigger] blocks@[j])@ == (BlockView {
                    subject_name: views[j].name,
                    minutes: plan[j],
                }),
        decreases subjects@.len() - i,
    {
        proof {
            assert(ints(minutes@)[i as int] == minutes@[i as int]);
        }
        blocks.push(Block { subject_name: subjects[i].name.clone(), minutes: minutes[i] });
        i += 1;
    }
    assert(block_views(blocks@) =~= allotted_blocks(views, budget as int));
    blocks
}

/// Drops the blocks that are shorter than the shortest block allowed.
pub fn drop_short_blocks(blocks: Vec<Block>) -> (kept: Vec<Block>)
    ensures
        block_views(kept@) == without_short(block_views(blocks@)),
{
    let ghost views = block_views(blocks@);
    let mut kept: Vec<Block> = Vec::new();
    let mut i: usize = 0;
    proof {
        reveal(Seq::filter);
        assert(views.take(0) =~= Seq::<BlockView>::empty());
        assert(block_views(kept@) =~= without_short(views.take(0)));
    }
    while i < blocks.len()
        invariant
            i <= blocks@.len(),
            views == block_views(blocks@),
            block_views(kept@) == without_short(views.take(i as int)),
        decreases blocks@.len() - i,
    {
        let block = &blocks[i];
        proof {
            reveal(Seq::filter);
            assert(views.take(i + 1).drop_last() =~= views.take(i as int));
            assert(views.take(i + 1).last() == block@);
        }
        if block.minutes >= SHORTEST_BLOCK {
            let copy = Block { subject_name: block.subject_name.clone(), minutes: block.minutes };
            proof {
                assert(block_views(kept@.push(copy)) =~= block_views(kept@).push(block@));
            }
            kept.push(copy);
        }
        i += 1;
    }
    assert(views.take(i as int) =~= views);
    kept
}

/// Plans the day: splits `total_minutes` over the subjects.
///
/// Subjects named by `focus`, without regard to letter case, count with
/// twice their priority. Every subject gets its minimum; minimums that
/// exceed the budget are scaled down, and subjects of the lowest priority
/// leave while the rest still does not fit. What the minimums leave over is
/// distributed in proportion to the priorities, in whole minutes rounded to
/// the nearest; minutes that rounding down left over are handed out one at
/// a time in turn. Rounding up may hand out more than was left: such a plan
/// is longer than the budget. Blocks under ten minutes are dropped.
pub fn generate_schedule(subjects: Vec<Subject>, total_minutes: u32, focus: Option<String>) -> (blocks:
    Vec<Block>)
    ensures
        block_views(blocks@) == schedule(
            subject_views(subjects@),
            total_minutes as int,
            optional_text(focus),
        ),
{
    if subjects.len() == 0 || total_minutes == 0 {
        let blocks: Vec<Block> = Vec::new();
        proof {
            reveal(Seq::filter);
            assert(block_views(blocks@) =~= Seq::<BlockView>::empty());
        }
        return blocks;
    }
    let weighted = apply_focus_bonus(&subjects, &focus);
    let taking_part = fit_to_budget(weighted, total_minutes);
    let unfiltered = allot_blocks(&taking_part, total_minutes);
    drop_short_blocks(unfiltered)
}

/// Where the minimums fit the budget, the blocks before the short ones are
/// dropped last exactly as long as the budget, provided that the spare
/// minutes can be handed out (some subject has a weight, or nothing is
/// spare) and the rounded shares do not hand out more than is spare.
pub proof fn lemma_budget_used_up(
    subjects: Seq<SubjectView>,
    budget: int,
    focus: Option<Seq<char>>,
)
    requires
        0 <= budget,
        sum_min(subjects) <= budget,
        sum_min(subjects) < budget ==> total_weight(with_focus_bonus(subjects, focus)) > 0,
        distributed(with_focus_bonus(subjects, focus), budget) <= budget - sum_min(subjects),
    ensures
        total(block_minutes(unfiltered_schedule(subjects, budget, focus))) == budget,
{
    let weighted = with_focus_bonus(subjects, focus);
    assert(minimums(weighted) =~= minimums(subjects));
    let blocks = unfiltered_schedule(subjects, budget, focus);
    if subjects.len() == 0 || budget == 0 {
        assert(block_minutes(blocks) =~= Seq::<int>::empty());
        if subjects.len() == 0 {
            assert(minimums(subjects) =~= Seq::<int>::empty());
            assert(crate::budget::weights(weighted) =~= Seq::<int>::empty());
        }
    } else {
        assert(fitted(weighted, budget) == weighted);
        assert(block_minutes(blocks) =~= planned_minutes(weighted, budget));
        lemma_planned_total(weighted, budget);
        if !distributes(weighted, budget) {
            let given = shares(weighted, budget);
            lemma_total_at_most(given, 0);
            lemma_total_non_negative(given);
        }
    }
}

/// After the minutes that rounding left over have been handed out in turn,
/// the spare minutes handed out are all the spare minutes there were,
/// unless the rounded shares alone had already handed out more.
pub proof fn lemma_spare_minutes_handed_out(subjects: Seq<SubjectView>, budget: int)
    requires
        distributes(subjects, budget),
    ensures
        distributed(subjects, budget) + total(
            top_ups(shortfall(subjects, budget), subjects.len() as int),
        ) == if distributed(subjects, budget) <= remaining_minutes(subjects, budget) {
            remaining_minutes(subjects, budget)
        } else {
            distributed(subjects, budget)
        },
{
    if subjects.len() == 0 {
        assert(crate::budget::weights(subjects) =~= Seq::<int>::empty());
    } else {
        lemma_top_ups_total(shortfall(subjects, budget), subjects.len() as int);
    }
}

} // verus!
