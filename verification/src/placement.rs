//! Placing the blocks of a plan on the clock, one after the other.

use crate::clock::{clock_text, wrap_forward, TimeOfDay};
use crate::model::{block_views, ui_block_views, Block, BlockView, UiBlock, UiBlockView};
use crate::schedule::block_minutes;
use crate::sums::{lemma_total_take_next, total};
use vstd::arithmetic::div_mod::lemma_add_mod_noop_right;
use vstd::prelude::*;

verus! {

/// The minutes that the blocks before block `index` take, together.
pub open spec fn elapsed_before(blocks: Seq<BlockView>, index: int) -> int {
    total(block_minutes(blocks).take(index))
}

/// The minute of the day at which block `index` starts, when the first
/// block starts at `start`. A plan that runs past midnight goes on in the
/// small hours: the clock wraps and does not count days.
pub open spec fn start_minute(blocks: Seq<BlockView>, start: int, index: int) -> int {
    wrap_forward(start, elapsed_before(blocks, index))
}

/// The blocks on the clock: each starts where the one before it ends, the
/// first at `start`, and ends its own minutes later.
pub open spec fn placed(blocks: Seq<BlockView>, start: int) -> Seq<UiBlockView> {
    Seq::new(
        blocks.len(),
        |i: int|
            UiBlockView {
                start: clock_text(start_minute(blocks, start, i)),
                end: clock_text(wrap_forward(start_minute(blocks, start, i), blocks[i].minutes)),
                subject: blocks[i].subject_name,
                minutes: blocks[i].minutes,
            },
    )
}

/// A block ends at the minute at which the next one starts.
pub proof fn lemma_blocks_follow_on(blocks: Seq<BlockView>, start: int, index: int)
    requires
        0 <= index < blocks.len(),
    ensures
        wrap_forward(start_minute(blocks, start, index), blocks[index].minutes) == start_minute(
            blocks,
            start,
            index + 1,
        ),
{
    lemma_total_take_next(block_minutes(blocks), index);
    lemma_add_mod_noop_right(blocks[index].minutes, start + elapsed_before(blocks, index), 1440);
}

/// Places the blocks on the clock, one after the other from `start_time`.
pub fn blocks_to_ui_blocks(blocks: Vec<Block>, start_time: TimeOfDay) -> (placed_blocks: Vec<
    UiBlock,
>)
    ensures
        ui_block_views(placed_blocks@) == placed(block_views(blocks@), start_time@),
{
    let ghost views = block_views(blocks@);
    let mut current_time = start_time;
    let mut ui_blocks: Vec<UiBlock> = Vec::new();
    let mut i: usize = 0;
    let first_minute = start_time.minute_of_day();
    proof {
        assert(block_minutes(views).take(0) =~= Seq::<int>::empty());
        assert(wrap_forward(first_minute as int, 0) == first_minute);
    }
    while i < blocks.len()
        invariant
            i <= blocks@.len(),
            views == block_views(blocks@),
            ui_blocks@.len() == i,
            current_time@ == start_minute(views, start_time@, i as int),
            forall|j: int|
                0 <= j < i ==> (#[trigger] ui_blocks@[j])@ == placed(views, start_time@)[j],
        decreases blocks@.len() - i,
    {
        let block = &blocks[i];
        let end_time = current_time.plus_minutes(block.minutes);
        proof {
            lemma_blocks_follow_on(views, start_time@, i as int);
        }
        ui_blocks.push(
            UiBlock {
                start: current_time.to_text(),
                end: end_time.to_text(),
                subject: block.subject_name.clone(),
                minutes: block.minutes,
            },
        );
        current_time = end_time;
        i += 1;
    }
    assert(ui_block_views(ui_blocks@) =~= placed(views, start_time@));
    ui_blocks
}

} // verus!
