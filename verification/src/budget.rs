//! Fitting the subjects into the budget of the day: the focus bonus, the
//! scaling of minimums that ask for too much, and the removal of the
//! subjects of lowest priority while the minimums still do not fit.

use crate::model::{optional_text, subject_views, weighted_views, Subject, SubjectView, WeightedSubject};
use crate::sums::{lemma_total_take_next, non_negative, round_half_up, round_share, total};
use crate::text::{eq_ignoring_case, same_ignoring_case};
use vstd::prelude::*;

verus! {

/// No block of the final plan is shorter than this many minutes, and no
/// scaled minimum is smaller.
pub const SHORTEST_BLOCK: u32 = 10;

/// The minimums of the subjects, in order.
pub open spec fn minimums(subjects: Seq<SubjectView>) -> Seq<int> {
    subjects.map_values(|s: SubjectView| s.min_minutes)
}

/// The weights of the subjects, in order.
pub open spec fn weights(subjects: Seq<SubjectView>) -> Seq<int> {
    subjects.map_values(|s: SubjectView| s.priority)
}

/// The minutes that the subjects ask for at least, together.
pub open spec fn sum_min(subjects: Seq<SubjectView>) -> int {
    total(minimums(subjects))
}

/// The sum of the weights of the subjects.
pub open spec fn total_weight(subjects: Seq<SubjectView>) -> int {
    total(weights(subjects))
}

/// Whether a subject is the focus of the day.
pub open spec fn is_focus(name: Seq<char>, focus: Option<Seq<char>>) -> bool {
    match focus {
        Some(f) => same_ignoring_case(name, f),
        None => false,
    }
}

/// A subject after the focus bonus: its priority is doubled where its name
/// is the focus, and nothing else changes.
pub open spec fn boosted(subject: SubjectView, focus: Option<Seq<char>>) -> SubjectView {
    SubjectView {
        name: subject.name,
        priority: if is_focus(subject.name, focus) {
            2 * subject.priority
        } else {
            subject.priority
        },
        min_minutes: subject.min_minutes,
    }
}

/// The subjects after the focus bonus.
pub open spec fn with_focus_bonus(subjects: Seq<SubjectView>, focus: Option<Seq<char>>) -> Seq<
    SubjectView,
> {
    subjects.map_values(|s: SubjectView| boosted(s, focus))
}

/// A minimum scaled by the ratio of the budget to the sum of all minimums,
/// rounded, and raised to the shortest block where it falls below.
pub open spec fn scaled_minimum(min_minutes: int, budget: int, sum: int) -> int {
    let scaled = round_half_up(min_minutes * budget, sum);
    if scaled < SHORTEST_BLOCK {
        SHORTEST_BLOCK as int
    } else {
        scaled
    }
}

/// The subjects with every minimum scaled to the budget.
pub open spec fn with_scaled_minimums(subjects: Seq<SubjectView>, budget: int) -> Seq<
    SubjectView,
> {
    subjects.map_values(
        |s: SubjectView|
            SubjectView {
                name: s.name,
                priority: s.priority,
                min_minutes: scaled_minimum(s.min_minutes, budget, sum_min(subjects)),
            },
    )
}

/// A sequence in ascending order of priority with one more subject put in,
/// behind every subject of the same or a lower priority.
pub open spec fn inserted_by_priority(sorted: Seq<SubjectView>, subject: SubjectView) -> Seq<
    SubjectView,
>
    decreases sorted.len(),
{
    if sorted.len() == 0 {
        seq![subject]
    } else if sorted.last().priority <= subject.priority {
        sorted.push(subject)
    } else {
        inserted_by_priority(sorted.drop_last(), subject).push(sorted.last())
    }
}

/// The subjects in ascending order of priority; subjects of equal priority
/// keep their order.
pub open spec fn sorted_by_priority(subjects: Seq<SubjectView>) -> Seq<SubjectView>
    decreases subjects.len(),
{
    if subjects.len() == 0 {
        subjects
    } else {
        inserted_by_priority(sorted_by_priority(subjects.drop_last()), subjects.last())
    }
}

/// What is left after removing subjects from the front until the minimums
/// fit the budget or no subject is left.
pub open spec fn without_lowest(subjects: Seq<SubjectView>, budget: int) -> Seq<SubjectView>
    decreases subjects.len(),
{
    if subjects.len() == 0 || sum_min(subjects) <= budget {
        subjects
    } else {
        without_lowest(subjects.drop_first(), budget)
    }
}

/// The subjects that take part in the plan, with the minimums they take part
/// with. Minimums that fit the budget stay as they are. Otherwise they are
/// scaled; if they still do not fit, the subjects are put in ascending order
/// of priority and removed from the front until the rest fits.
pub open spec fn fitted(subjects: Seq<SubjectView>, budget: int) -> Seq<SubjectView> {
    if sum_min(subjects) <= budget {
        subjects
    } else {
        let scaled = with_scaled_minimums(subjects, budget);
        if sum_min(scaled) <= budget {
            scaled
        } else {
            without_lowest(sorted_by_priority(scaled), budget)
        }
    }
}

/// The minimums and weights of subjects that come from machine values are
/// not negative.
pub proof fn lemma_weighted_non_negative(subjects: Seq<WeightedSubject>)
    ensures
        non_negative(minimums(weighted_views(subjects))),
        non_negative(weights(weighted_views(subjects))),
{
}

/// Applies the focus bonus: the subjects whose name is the focus, without
/// regard to letter case, count with twice their priority.
pub fn apply_focus_bonus(subjects: &Vec<Subject>, focus: &Option<String>) -> (weighted: Vec<
    WeightedSubject,
>)
    ensures
        weighted@.len() == subjects@.len(),
        forall|i: int|
            0 <= i < subjects@.len() ==> {
                &&& (#[trigger] weighted@[i]).name@ == subjects@[i].name@
                &&& weighted@[i].min_minutes == subjects@[i].min_minutes
                &&& weighted@[i].priority == subjects@[i].priority
                &&& weighted@[i].focused == is_focus(subjects@[i].name@, optional_text(*focus))
            },
        weighted_views(weighted@) == with_focus_bonus(
            subject_views(subjects@),
            optional_text(*focus),
        ),
{
    let mut weighted: Vec<WeightedSubject> = Vec::new();
    let mut i: usize = 0;
    while i < subjects.len()
        invariant
            i <= subjects@.len(),
            weighted@.len() == i,
            forall|j: int|
                0 <= j < i ==> {
                    &&& (#[trigger] weighted@[j]).name@ == subjects@[j].name@
                    &&& weighted@[j].min_minutes == subjects@[j].min_minutes
                    &&& weighted@[j].priority == subjects@[j].priority
                    &&& weighted@[j].focused == is_focus(
                        subjects@[j].name@,
                        optional_text(*focus),
                    )
                },
        decreases subjects@.len() - i,
    {
        let subject = &subjects[i];
        let focused = match focus {
            Some(f) => eq_ignoring_case(subject.name.as_str(), f.as_str()),
            None => false,
        };
        weighted.push(
            WeightedSubject {
                name: subject.name.clone(),
                priority: subject.priority,
                focused,
                min_minutes: subject.min_minutes,
            },
        );
        i += 1;
    }
    assert(weighted_views(weighted@) =~= with_focus_bonus(
        subject_views(subjects@),
        optional_text(*focus),
    ));
    weighted
}

/// Adds up the minimums of the subjects.
pub fn sum_minimums(subjects: &Vec<WeightedSubject>) -> (sum: u128)
    ensures
        sum == sum_min(weighted_views(subjects@)),
        sum <= subjects@.len() * u32::MAX,
{
    let ghost mins = minimums(weighted_views(subjects@));
    let mut sum: u128 = 0;
    let mut i: usize = 0;
    while i < subjects.len()
        invariant
            i <= subjects@.len(),
            mins == minimums(weighted_views(subjects@)),
            sum == total(mins.take(i as int)),
            sum <= i * u32::MAX,
        decreases subjects@.len() - i,
    {
        proof {
            lemma_total_take_next(mins, i as int);
            assert((i + 1) * u32::MAX == i * u32::MAX + u32::MAX) by (nonlinear_arith);
            assert(i * u32::MAX <= usize::MAX * u32::MAX) by (nonlinear_arith)
                requires
                    i <= usize::MAX,
            ;
        }
        sum = sum + subjects[i].min_minutes as u128;
        i += 1;
    }
    assert(mins.take(i as int) =~= mins);
    sum
}

/// Adds up the weights of the subjects.
pub fn sum_weights(subjects: &Vec<WeightedSubject>) -> (sum: u128)
    ensures
        sum == total_weight(weighted_views(subjects@)),
        sum <= subjects@.len() * (2 * u32::MAX),
{
    let ghost all = weights(weighted_views(subjects@));
    let mut sum: u128 = 0;
    let mut i: usize = 0;
    while i < subjects.len()
        invariant
            i <= subjects@.len(),
            all == weights(weighted_views(subjects@)),
            sum == total(all.take(i as int)),
            sum <= i * (2 * u32::MAX),
        decreases subjects@.len() - i,
    {
        proof {
            lemma_total_take_next(all, i as int);
            assert((i + 1) * (2 * u32::MAX) == i * (2 * u32::MAX) + 2 * u32::MAX)
                by (nonlinear_arith);
            assert(i * (2 * u32::MAX) <= usize::MAX * (2 * u32::MAX)) by (nonlinear_arith)
                requires
                    i <= usize::MAX,
            ;
        }
        sum = sum + subjects[i].weight() as u128;
        i += 1;
    }
    assert(all.take(i as int) =~= all);
    sum
}

/// A copy of a weighted subject with another minimum.
fn with_minimum(subject: &WeightedSubject, min_minutes: u32) -> (copy: WeightedSubject)
    ensures
        copy.name@ == subject.name@,
        copy.priority == subject.priority,
        copy.focused == subject.focused,
        copy.min_minutes == min_minutes,
{
    WeightedSubject {
        name: subject.name.clone(),
        priority: subject.priority,
        focused: subject.focused,
        min_minutes,
    }
}

/// Scales every minimum by the ratio of the budget to the sum of the
/// minimums, where that sum exceeds the budget.
pub fn scale_minimums(subjects: &Vec<WeightedSubject>, budget: u32) -> (scaled: Vec<
    WeightedSubject,
>)
    requires
        sum_min(weighted_views(subjects@)) > budget,
    ensures
        weighted_views(scaled@) == with_scaled_minimums(
            weighted_views(subjects@),
            budget as int,
        ),
{
    let sum = sum_minimums(subjects);
    let mut scaled: Vec<WeightedSubject> = Vec::new();
    let mut i: usize = 0;
    let count = subjects.len();
    proof {
        assert(count * u32::MAX <= usize::MAX * u32::MAX) by (nonlinear_arith)
            requires
                count <= usize::MAX,
        ;
    }
    while i < subjects.len()
        invariant
            i <= subjects@.len(),
            scaled@.len() == i,
            sum == sum_min(weighted_views(subjects@)),
            budget < sum <= 0x10_0000_0000_0000_0000_0000_0000,
            forall|j: int|
                0 <= j < i ==> {
                    &&& (#[trigger] scaled@[j]).name@ == subjects@[j].name@
                    &&& scaled@[j].priority == subjects@[j].priority
                    &&& scaled@[j].focused == subjects@[j].focused
                    &&& scaled@[j].min_minutes == scaled_minimum(
                        subjects@[j].min_minutes as int,
                        budget as int,
                        sum as int,
                    )
                },
        decreases subjects@.len() - i,
    {
        let subject = &subjects[i];
        let share = round_share(subject.min_minutes, budget as u64, sum);
        let min_minutes = if share < SHORTEST_BLOCK {
            SHORTEST_BLOCK
        } else {
            share
        };
        scaled.push(with_minimum(subject, min_minutes));
        i += 1;
    }
    assert(weighted_views(scaled@) =~= with_scaled_minimums(
        weighted_views(subjects@),
        budget as int,
    ));
    scaled
}

/// Where a subject goes into a sequence: `at` is behind every subject of
/// the same or a lower priority and before the higher ones that follow.
pub proof fn lemma_inserted_at(sorted: Seq<SubjectView>, subject: SubjectView, at: int)
    requires
        0 <= at <= sorted.len(),
        forall|j: int| at <= j < sorted.len() ==> sorted[j].priority > subject.priority,
        at > 0 ==> sorted[at - 1].priority <= subject.priority,
    ensures
        inserted_by_priority(sorted, subject) == sorted.insert(at, subject),
    decreases sorted.len(),
{
    if sorted.len() == 0 {
        assert(sorted.insert(at, subject) =~= seq![subject]);
    } else if at == sorted.len() {
        assert(sorted.insert(at, subject) =~= sorted.push(subject));
    } else {
        lemma_inserted_at(sorted.drop_last(), subject, at);
        assert(sorted.insert(at, subject) =~= sorted.drop_last().insert(at, subject).push(
            sorted.last(),
        ));
    }
}

/// Whether the priorities never fall from one subject to the next.
pub open spec fn ascending(subjects: Seq<SubjectView>) -> bool {
    forall|i: int, j: int|
        0 <= i <= j < subjects.len() ==> subjects[i].priority <= subjects[j].priority
}

/// The subjects of priority `priority`, in their order.
pub open spec fn of_priority(subjects: Seq<SubjectView>, priority: int) -> Seq<SubjectView> {
    subjects.filter(|s: SubjectView| s.priority == priority)
}

/// Putting a subject into an ascending sequence leaves it ascending, and
/// the result holds the subject and what the sequence held.
proof fn lemma_inserted_ascending(sorted: Seq<SubjectView>, subject: SubjectView)
    requires
        ascending(sorted),
    ensures
        ascending(inserted_by_priority(sorted, subject)),
        inserted_by_priority(sorted, subject).len() == sorted.len() + 1,
        forall|k: int|
            0 <= k < sorted.len() + 1 ==> {
                let entry = #[trigger] inserted_by_priority(sorted, subject)[k];
                entry == subject || exists|j: int| 0 <= j < sorted.len() && sorted[j] == entry
            },
    decreases sorted.len(),
{
    let result = inserted_by_priority(sorted, subject);
    if sorted.len() == 0 {
    } else if sorted.last().priority <= subject.priority {
        assert forall|k: int| 0 <= k < sorted.len() + 1 implies {
            let entry = #[trigger] result[k];
            entry == subject || exists|j: int| 0 <= j < sorted.len() && sorted[j] == entry
        } by {
            if k < sorted.len() {
                assert(sorted[k] == result[k]);
            }
        }
    } else {
        let front = sorted.drop_last();
        let inner = inserted_by_priority(front, subject);
        assert(ascending(front)) by {
            assert forall|i: int, j: int| 0 <= i <= j < front.len() implies front[i].priority
                <= front[j].priority by {
                assert(front[i] == sorted[i] && front[j] == sorted[j]);
            }
        }
        lemma_inserted_ascending(front, subject);
        assert forall|k: int| 0 <= k < inner.len() implies (#[trigger] inner[k]).priority
            <= sorted.last().priority by {
            let entry = inner[k];
            if entry != subject {
                let j = choose|j: int| 0 <= j < front.len() && front[j] == entry;
                assert(sorted[j] == entry);
            }
        }
        assert forall|k: int| 0 <= k < sorted.len() + 1 implies {
            let entry = #[trigger] result[k];
            entry == subject || exists|j: int| 0 <= j < sorted.len() && sorted[j] == entry
        } by {
            let entry = result[k];
            if k == sorted.len() {
                assert(sorted[sorted.len() - 1] == entry);
            } else {
                assert(entry == inner[k]);
                if entry != subject {
                    let j = choose|j: int| 0 <= j < front.len() && front[j] == entry;
                    assert(sorted[j] == entry);
                }
            }
        }
        assert forall|i: int, j: int| 0 <= i <= j < result.len() implies result[i].priority
            <= result[j].priority by {
            if j < inner.len() {
                assert(result[i] == inner[i] && result[j] == inner[j]);
            } else if i < inner.len() {
                assert(result[i] == inner[i]);
            }
        }
    }
}

/// Sorting gives as many subjects as there were, in ascending order of
/// priority.
pub proof fn lemma_sorted_ascending(subjects: Seq<SubjectView>)
    ensures
        sorted_by_priority(subjects).len() == subjects.len(),
        ascending(sorted_by_priority(subjects)),
    decreases subjects.len(),
{
    if subjects.len() > 0 {
        lemma_sorted_ascending(subjects.drop_last());
        lemma_inserted_ascending(sorted_by_priority(subjects.drop_last()), subjects.last());
    }
}

/// Putting a subject in adds it at the end of the subjects of its own
/// priority and leaves the subjects of every other priority as they were.
proof fn lemma_inserted_of_priority(sorted: Seq<SubjectView>, subject: SubjectView, priority: int)
    ensures
        of_priority(inserted_by_priority(sorted, subject), priority) == if subject.priority
            == priority {
            of_priority(sorted, priority).push(subject)
        } else {
            of_priority(sorted, priority)
        },
    decreases sorted.len(),
{
    reveal(Seq::filter);
    if sorted.len() == 0 {
        assert(seq![subject].drop_last() =~= sorted);
    } else if sorted.last().priority <= subject.priority {
        assert(sorted.push(subject).drop_last() =~= sorted);
    } else {
        let front = sorted.drop_last();
        let inner = inserted_by_priority(front, subject);
        lemma_inserted_of_priority(front, subject, priority);
        assert(inner.push(sorted.last()).drop_last() =~= inner);
    }
}

/// Sorting is stable: the subjects of any one priority are the same before
/// and after, in the same order. With the ascending order this says that
/// sorting moves no subject but past subjects of another priority.
pub proof fn lemma_sorted_is_stable(subjects: Seq<SubjectView>, priority: int)
    ensures
        of_priority(sorted_by_priority(subjects), priority) == of_priority(subjects, priority),
    decreases subjects.len(),
{
    reveal(Seq::filter);
    if subjects.len() > 0 {
        lemma_sorted_is_stable(subjects.drop_last(), priority);
        lemma_inserted_of_priority(
            sorted_by_priority(subjects.drop_last()),
            subjects.last(),
            priority,
        );
    }
}

/// The subjects that take part ask for no more than the budget.
pub proof fn lemma_fitted_fits(subjects: Seq<SubjectView>, budget: int)
    requires
        0 <= budget,
    ensures
        sum_min(fitted(subjects, budget)) <= budget,
{
    lemma_without_lowest_fits(
        sorted_by_priority(with_scaled_minimums(subjects, budget)),
        budget,
    );
}

/// Puts the subjects in ascending order of priority. Subjects of equal
/// priority keep their order.
pub fn sort_by_priority(subjects: &Vec<WeightedSubject>) -> (sorted: Vec<WeightedSubject>)
    ensures
        weighted_views(sorted@) == sorted_by_priority(weighted_views(subjects@)),
{
    let ghost views = weighted_views(subjects@);
    let mut sorted: Vec<WeightedSubject> = Vec::new();
    let mut i: usize = 0;
    while i < subjects.len()
        invariant
            i <= subjects@.len(),
            views == weighted_views(subjects@),
            sorted@.len() == i,
            weighted_views(sorted@) == sorted_by_priority(views.take(i as int)),
        decreases subjects@.len() - i,
    {
        let subject = &subjects[i];
        let weight = subject.weight();
        let mut at: usize = sorted.len();
        while at > 0 && sorted[at - 1].weight() > weight
            invariant
                at <= sorted@.len(),
                forall|j: int| at <= j < sorted@.len() ==> sorted@[j].spec_weight() > weight,
            decreases at,
        {
            at -= 1;
        }
        let item = with_minimum(subject, subject.min_minutes);
        proof {
            let before = weighted_views(sorted@);
            assert(item@ == views[i as int]);
            lemma_inserted_at(before, item@, at as int);
            assert(views.take(i + 1).drop_last() =~= views.take(i as int));
            assert(weighted_views(sorted@.insert(at as int, item)) =~= before.insert(
                at as int,
                item@,
            ));
        }
        sorted.insert(at, item);
        i += 1;
    }
    assert(views.take(i as int) =~= views);
    sorted
}

/// The minimums of all but the first subject are the minimums without the
/// first.
pub proof fn lemma_sum_min_drop_first(subjects: Seq<SubjectView>)
    requires
        subjects.len() > 0,
    ensures
        sum_min(subjects) == subjects[0].min_minutes + sum_min(subjects.drop_first()),
{
    crate::sums::lemma_total_drop_first(minimums(subjects));
    assert(minimums(subjects).drop_first() =~= minimums(subjects.drop_first()));
}

/// What `without_lowest` leaves fits the budget.
pub proof fn lemma_without_lowest_fits(subjects: Seq<SubjectView>, budget: int)
    requires
        0 <= budget,
    ensures
        sum_min(without_lowest(subjects, budget)) <= budget,
    decreases subjects.len(),
{
    if subjects.len() == 0 || sum_min(subjects) <= budget {
    } else {
        lemma_without_lowest_fits(subjects.drop_first(), budget);
    }
}

/// Removes subjects from the front until the minimums of the rest fit the
/// budget or no subject is left.
pub fn drop_lowest(subjects: &Vec<WeightedSubject>, budget: u32) -> (kept: Vec<WeightedSubject>)
    ensures
        weighted_views(kept@) == without_lowest(weighted_views(subjects@), budget as int),
{
    let ghost views = weighted_views(subjects@);
    let mut sum = sum_minimums(subjects);
    let mut first: usize = 0;
    assert(views.skip(0) =~= views);
    while first < subjects.len() && sum > budget as u128
        invariant
            first <= subjects@.len(),
            views == weighted_views(subjects@),
            sum == sum_min(views.skip(first as int)),
            without_lowest(views, budget as int) == without_lowest(
                views.skip(first as int),
                budget as int,
            ),
        decreases subjects@.len() - first,
    {
        proof {
            let rest = views.skip(first as int);
            lemma_sum_min_drop_first(rest);
            assert(rest.drop_first() =~= views.skip(first + 1));
            lemma_weighted_non_negative(subjects@);
            crate::sums::lemma_total_non_negative(minimums(views.skip(first + 1)));
        }
        sum = sum - subjects[first].min_minutes as u128;
        first += 1;
    }
    let mut kept: Vec<WeightedSubject> = Vec::new();
    let mut i: usize = first;
    while i < subjects.len()
        invariant
            first <= i <= subjects@.len(),
            views == weighted_views(subjects@),
            weighted_views(kept@) == views.subrange(first as int, i as int),
        decreases subjects@.len() - i,
    {
        let item = with_minimum(&subjects[i], subjects[i].min_minutes);
        proof {
            assert(item@ == views[i as int]);
            assert(weighted_views(kept@.push(item)) =~= weighted_views(kept@).push(item@));
            assert(views.subrange(first as int, i as int).push(views[i as int])
                =~= views.subrange(first as int, i + 1));
        }
        kept.push(item);
        i += 1;
    }
    assert(views.subrange(first as int, i as int) =~= views.skip(first as int));
    kept
}

/// Chooses the subjects that take part in the plan and the minimums they
/// take part with.
pub fn fit_to_budget(subjects: Vec<WeightedSubject>, budget: u32) -> (kept: Vec<WeightedSubject>)
    ensures
        weighted_views(kept@) == fitted(weighted_views(subjects@), budget as int),
        sum_min(weighted_views(kept@)) <= budget,
{
    if sum_minimums(&subjects) <= budget as u128 {
        return subjects;
    }
    let scaled = scale_minimums(&subjects, budget);
    if sum_minimums(&scaled) <= budget as u128 {
        return scaled;
    }
    let sorted = sort_by_priority(&scaled);
    proof {
        lemma_without_lowest_fits(weighted_views(sorted@), budget as int);
    }
    drop_lowest(&sorted, budget)
}

} // verus!
