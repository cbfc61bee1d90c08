//! Distribution of the budget over the subjects that take part: each gets
//! its minimum, then a share of what remains in proportion to its weight,
//! then, where rounding left minutes over, one minute at a time in turn.

use crate::budget::{
    lemma_weighted_non_negative, minimums, sum_min, sum_minimums, sum_weights, total_weight,
    weights,
};
use crate::model::{ints, weighted_views, SubjectView, WeightedSubject};
use crate::sums::{
    lemma_entry_at_most_total, lemma_total_of_sums, lemma_total_take_next, lemma_total_update,
    non_negative, round_half_up, round_share, total,
};
use vstd::arithmetic::div_mod::{lemma_fundamental_div_mod, lemma_fundamental_div_mod_converse};
use vstd::prelude::*;

verus! {

/// The minutes of the budget that the minimums leave over.
pub open spec fn remaining_minutes(subjects: Seq<SubjectView>, budget: int) -> int {
    budget - sum_min(subjects)
}

/// Whether spare minutes are handed out at all: there must be some, and
/// some weight to hand them out by.
pub open spec fn distributes(subjects: Seq<SubjectView>, budget: int) -> bool {
    remaining_minutes(subjects, budget) > 0 && total_weight(subjects) > 0
}

/// The share of the spare minutes that each subject gets for its weight.
pub open spec fn shares(subjects: Seq<SubjectView>, budget: int) -> Seq<int> {
    subjects.map_values(
        |s: SubjectView|
            if distributes(subjects, budget) {
                round_half_up(
                    remaining_minutes(subjects, budget) * s.priority,
                    total_weight(subjects),
                )
            } else {
                0
            },
    )
}

/// The spare minutes that the shares hand out, together.
pub open spec fn distributed(subjects: Seq<SubjectView>, budget: int) -> int {
    total(shares(subjects, budget))
}

/// The spare minutes that rounding the shares down has left over.
pub open spec fn shortfall(subjects: Seq<SubjectView>, budget: int) -> int {
    if distributes(subjects, budget) && distributed(subjects, budget) < remaining_minutes(
        subjects,
        budget,
    ) {
        remaining_minutes(subjects, budget) - distributed(subjects, budget)
    } else {
        0
    }
}

/// What the place `index` among `count` places gets when `minutes` are
/// handed out one at a time, going round from the first place.
pub open spec fn top_up(minutes: int, count: int, index: int) -> int {
    minutes / count + if index < minutes % count {
        1int
    } else {
        0int
    }
}

/// What each of `count` places gets of `minutes` handed out in turn.
pub open spec fn top_ups(minutes: int, count: int) -> Seq<int> {
    Seq::new(count as nat, |index: int| top_up(minutes, count, index))
}

/// The minutes of every subject: its minimum, its share of the spare
/// minutes, and its part of the shortfall.
pub open spec fn planned_minutes(subjects: Seq<SubjectView>, budget: int) -> Seq<int> {
    Seq::new(
        subjects.len(),
        |i: int|
            subjects[i].min_minutes + shares(subjects, budget)[i] + top_up(
                shortfall(subjects, budget),
                subjects.len() as int,
                i,
            ),
    )
}

/// How quotient and remainder move when one is added to the dividend: the
/// remainder goes up by one, or falls back to zero while the quotient goes
/// up by one.
pub proof fn lemma_one_more(minutes: int, count: int)
    requires
        0 <= minutes,
        0 < count,
    ensures
        0 <= minutes % count < count,
        minutes % count + 1 < count ==> (minutes + 1) / count == minutes / count && (minutes
            + 1) % count == minutes % count + 1,
        minutes % count + 1 == count ==> (minutes + 1) / count == minutes / count + 1 && (
        minutes + 1) % count == 0,
{
    let q = minutes / count;
    let r = minutes % count;
    lemma_fundamental_div_mod(minutes, count);
    assert(0 <= r < count) by (nonlinear_arith)
        requires
            r == minutes % count,
            0 < count,
    ;
    if r + 1 < count {
        lemma_fundamental_div_mod_converse(minutes + 1, count, q, r + 1);
    } else {
        assert(minutes + 1 == (q + 1) * count + 0) by (nonlinear_arith)
            requires
                minutes == count * q + r,
                r + 1 == count,
        ;
        lemma_fundamental_div_mod_converse(minutes + 1, count, q + 1, 0);
    }
}

/// One more minute handed out goes to the place whose turn it is.
pub proof fn lemma_top_up_next(minutes: int, count: int, index: int)
    requires
        0 <= minutes,
        0 <= index < count,
    ensures
        top_up(minutes + 1, count, index) == top_up(minutes, count, index) + if index == minutes
            % count {
            1int
        } else {
            0int
        },
{
    lemma_one_more(minutes, count);
}

/// The first `n` places get `n` full rounds and the extra minutes of those
/// among them whose turn came once more.
proof fn lemma_top_ups_prefix(minutes: int, count: int, n: int)
    requires
        0 <= minutes,
        0 <= n <= count,
        0 < count,
    ensures
        total(top_ups(minutes, count).take(n)) == n * (minutes / count) + if n < minutes
            % count {
            n
        } else {
            minutes % count
        },
    decreases n,
{
    let all = top_ups(minutes, count);
    if n == 0 {
        assert(all.take(0) =~= Seq::<int>::empty());
        assert(0 <= minutes % count) by (nonlinear_arith)
            requires
                0 <= minutes,
                0 < count,
        ;
    } else {
        lemma_top_ups_prefix(minutes, count, n - 1);
        lemma_total_take_next(all, n - 1);
        assert(n * (minutes / count) == (n - 1) * (minutes / count) + minutes / count)
            by (nonlinear_arith);
    }
}

/// Handing out minutes in turn hands out every one of them: the parts that
/// the places get add up to the minutes there were.
pub proof fn lemma_top_ups_total(minutes: int, count: int)
    requires
        0 <= minutes,
        0 < count,
    ensures
        total(top_ups(minutes, count)) == minutes,
{
    let all = top_ups(minutes, count);
    lemma_top_ups_prefix(minutes, count, count);
    assert(all.take(count) =~= all);
    lemma_fundamental_div_mod(minutes, count);
    assert(minutes % count < count) by (nonlinear_arith)
        requires
            0 <= minutes,
            0 < count,
    ;
    assert(count * (minutes / count) == (minutes / count) * count) by (nonlinear_arith);
}

/// The planned minutes add up to the minimums, the shares and the
/// shortfall.
pub proof fn lemma_planned_total(subjects: Seq<SubjectView>, budget: int)
    ensures
        total(planned_minutes(subjects, budget)) == sum_min(subjects) + distributed(
            subjects,
            budget,
        ) + shortfall(subjects, budget),
{
    let count = subjects.len() as int;
    let lack = shortfall(subjects, budget);
    let mins = minimums(subjects);
    let given = shares(subjects, budget);
    let tops = top_ups(lack, count);
    let base = Seq::new(subjects.len(), |i: int| mins[i] + given[i]);
    let plan = planned_minutes(subjects, budget);
    lemma_total_of_sums(mins, given, base);
    lemma_total_of_sums(base, tops, plan);
    if count > 0 {
        lemma_top_ups_total(lack, count);
    } else {
        assert(tops =~= Seq::<int>::empty());
        assert(given =~= Seq::<int>::empty());
    }
}

/// Nothing to hand out leaves every place as it was, and the first turn
/// is that of the first place.
pub proof fn lemma_top_up_of_nothing(count: int, index: int)
    requires
        0 < count,
        0 <= index,
    ensures
        top_up(0, count, index) == 0,
        0int % count == 0,
{
    lemma_fundamental_div_mod_converse(0, count, 0, 0);
}

/// Hands out `minutes` one at a time, going round the places from the
/// first, until none is left.
pub fn spread_in_turn(places: &mut Vec<u32>, minutes: u32)
    requires
        old(places)@.len() > 0,
        total(ints(old(places)@)) + minutes <= u32::MAX,
    ensures
        final(places)@.len() == old(places)@.len(),
        forall|i: int|
            0 <= i < old(places)@.len() ==> (#[trigger] final(places)@[i]) == old(places)@[i]
                + top_up(minutes as int, old(places)@.len() as int, i),
        total(ints(final(places)@)) == total(ints(old(places)@)) + minutes,
{
    let count = places.len();
    let mut given: u32 = 0;
    let mut turn: usize = 0;
    proof {
        assert forall|i: int| 0 <= i < count implies top_up(0, count as int, i) == 0 by {
            lemma_top_up_of_nothing(count as int, i);
        }
        lemma_top_up_of_nothing(count as int, 0);
    }
    while given < minutes
        invariant
            count == old(places)@.len(),
            places@.len() == count,
            count > 0,
            given <= minutes,
            turn == given as int % (count as int),
            turn < count,
            total(ints(old(places)@)) + minutes <= u32::MAX,
            total(ints(places@)) == total(ints(old(places)@)) + given,
            forall|i: int|
                0 <= i < count ==> (#[trigger] places@[i]) == old(places)@[i] + top_up(
                    given as int,
                    count as int,
                    i,
                ),
        decreases minutes - given,
    {
        let ghost before = places@;
        proof {
            lemma_entry_at_most_total(ints(before), turn as int);
            lemma_total_update(ints(before), turn as int, before[turn as int] + 1);
            assert(ints(before.update(turn as int, (before[turn as int] + 1) as u32))
                =~= ints(before).update(turn as int, before[turn as int] + 1));
            assert forall|i: int| 0 <= i < count implies top_up(given + 1, count as int, i)
                == top_up(given as int, count as int, i) + if i == turn {
                1int
            } else {
                0int
            } by {
                lemma_top_up_next(given as int, count as int, i);
            }
            lemma_one_more(given as int, count as int);
        }
        let more = places[turn] + 1;
        places.set(turn, more);
        given += 1;
        turn = if turn + 1 < count {
            turn + 1
        } else {
            0
        };
    }
}

/// Gives every subject its minimum, its share of the spare minutes in
/// proportion to its weight, and its part of what rounding left over.
pub fn allot_minutes(subjects: &Vec<WeightedSubject>, budget: u32) -> (minutes: Vec<u32>)
    requires
        sum_min(weighted_views(subjects@)) <= budget,
    ensures
        ints(minutes@) == planned_minutes(weighted_views(subjects@), budget as int),
{
    let ghost views = weighted_views(subjects@);
    let ghost given = shares(views, budget as int);
    let count = subjects.len();
    let sum = sum_minimums(subjects);
    let remaining: u32 = budget - (sum as u32);
    let weight = sum_weights(subjects);
    let hands_out = remaining > 0 && weight > 0;
    let mut minutes: Vec<u32> = Vec::new();
    let mut handed: u128 = 0;
    let mut i: usize = 0;
    proof {
        lemma_weighted_non_negative(subjects@);
        assert(count * (2 * u32::MAX) <= usize::MAX * (2 * u32::MAX)) by (nonlinear_arith)
            requires
                count <= usize::MAX,
        ;
    }
    while i < count
        invariant
            i <= count,
            count == subjects@.len(),
            views == weighted_views(subjects@),
            given == shares(views, budget as int),
            non_negative(minimums(views)),
            non_negative(weights(views)),
            sum == sum_min(views),
            sum + remaining == budget,
            weight == total_weight(views),
            weight <= 0x10_0000_0000_0000_0000_0000_0000,
            hands_out == distributes(views, budget as int),
            minutes@.len() == i,
            handed == total(given.take(i as int)),
            handed <= i * u32::MAX,
            forall|j: int|
                0 <= j < i ==> (#[trigger] minutes@[j]) == views[j].min_minutes + given[j],
            forall|j: int| 0 <= j < i ==> 0 <= #[trigger] given[j] <= remaining,
        decreases count - i,
    {
        let subject = &subjects[i];
        proof {
            lemma_entry_at_most_total(weights(views), i as int);
            lemma_entry_at_most_total(minimums(views), i as int);
            lemma_total_take_next(given, i as int);
            assert((i + 1) * u32::MAX == i * u32::MAX + u32::MAX) by (nonlinear_arith);
            assert(i * u32::MAX <= usize::MAX * u32::MAX) by (nonlinear_arith)
                requires
                    i <= usize::MAX,
            ;
        }
        let share = if hands_out {
            round_share(remaining, subject.weight(), weight)
        } else {
            0
        };
        minutes.push(subject.min_minutes + share);
        handed = handed + share as u128;
        i += 1;
    }
    proof {
        assert(given.take(count as int) =~= given);
        let base = Seq::new(count as nat, |j: int| views[j].min_minutes + given[j]);
        assert(ints(minutes@) =~= base);
        lemma_total_of_sums(minimums(views), given, base);
    }
    if hands_out && handed < remaining as u128 {
        proof {
            if count == 0 {
                assert(weights(views) =~= Seq::<int>::empty());
            }
        }
        spread_in_turn(&mut minutes, remaining - handed as u32);
    } else {
        proof {
            assert forall|j: int| 0 <= j < count implies top_up(0, count as int, j) == 0 by {
                lemma_top_up_of_nothing(count as int, j);
            }
        }
    }
    assert(ints(minutes@) =~= planned_minutes(views, budget as int));
    minutes
}

} // verus!
