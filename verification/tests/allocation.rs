use study_planner::allot::{allot_minutes, spread_in_turn};
use study_planner::budget::{
    apply_focus_bonus, drop_lowest, fit_to_budget, scale_minimums, sort_by_priority,
    sum_minimums, sum_weights,
};
use study_planner::model::{Block, Subject, WeightedSubject};
use study_planner::schedule::{allot_blocks, drop_short_blocks, generate_schedule};
use study_planner::sums::round_share;

fn subject(name: &str, priority: u32, min_minutes: u32) -> Subject {
    Subject { name: name.to_string(), priority, min_minutes }
}

fn weighted(name: &str, priority: u32, min_minutes: u32) -> WeightedSubject {
    WeightedSubject { name: name.to_string(), priority, focused: false, min_minutes }
}

fn block(name: &str, minutes: u32) -> Block {
    Block { subject_name: name.to_string(), minutes }
}

fn names(subjects: &[WeightedSubject]) -> Vec<String> {
    subjects.iter().map(|s| s.name.clone()).collect()
}

#[test]
fn rounding_may_overshoot_the_budget() {
    let blocks =
        generate_schedule(vec![subject("Math", 3, 30), subject("History", 1, 20)], 60, None);
    assert_eq!(blocks, vec![block("Math", 38), block("History", 23)]);
}

#[test]
fn no_time_gives_no_block() {
    assert_eq!(generate_schedule(vec![subject("Math", 3, 30)], 0, None), Vec::<Block>::new());
}

#[test]
fn no_subject_gives_no_block() {
    assert_eq!(generate_schedule(Vec::new(), 120, None), Vec::<Block>::new());
}

#[test]
fn single_subject_takes_the_whole_budget() {
    assert_eq!(generate_schedule(vec![subject("Math", 1, 0)], 30, None), vec![block("Math", 30)]);
}

#[test]
fn exact_shares_use_up_the_budget() {
    let blocks = generate_schedule(vec![subject("A", 1, 10), subject("B", 1, 10)], 60, None);
    assert_eq!(blocks, vec![block("A", 30), block("B", 30)]);
    assert_eq!(blocks.iter().map(|b| b.minutes).sum::<u32>(), 60);
}

#[test]
fn rounding_shortfall_goes_round_from_the_first() {
    let blocks = generate_schedule(
        vec![subject("A", 1, 0), subject("B", 1, 0), subject("C", 1, 0)],
        100,
        None,
    );
    assert_eq!(blocks, vec![block("A", 34), block("B", 33), block("C", 33)]);
    assert_eq!(blocks.iter().map(|b| b.minutes).sum::<u32>(), 100);
}

#[test]
fn focus_doubles_the_priority_whatever_the_case() {
    let subjects = vec![subject("Math", 1, 0), subject("Art", 1, 0)];
    let blocks = generate_schedule(subjects, 90, Some("mATH".to_string()));
    assert_eq!(blocks, vec![block("Math", 60), block("Art", 30)]);
}

#[test]
fn focus_bonus_marks_only_the_matching_names() {
    let subjects = vec![subject("Math", 2, 5), subject("Maths", 2, 5), subject("MATH", 4, 7)];
    let out = apply_focus_bonus(&subjects, &Some("math".to_string()));
    assert_eq!(out.len(), 3);
    assert_eq!(out.iter().map(|s| s.focused).collect::<Vec<_>>(), vec![true, false, true]);
    assert_eq!(out.iter().map(|s| s.weight()).collect::<Vec<_>>(), vec![4, 2, 8]);
    assert_eq!(out.iter().map(|s| s.priority).collect::<Vec<_>>(), vec![2, 2, 4]);
    assert_eq!(out.iter().map(|s| s.min_minutes).collect::<Vec<_>>(), vec![5, 5, 7]);
    assert_eq!(names(&out), vec!["Math", "Maths", "MATH"]);
}

#[test]
fn no_focus_marks_nothing() {
    let out = apply_focus_bonus(&vec![subject("Math", 2, 5)], &None);
    assert_eq!(out, vec![weighted("Math", 2, 5)]);
}

#[test]
fn largest_priority_doubles_without_overflow() {
    let out = apply_focus_bonus(&vec![subject("Math", u32::MAX, 0)], &Some("math".to_string()));
    assert_eq!(out[0].weight(), 2 * (u32::MAX as u64));
    let blocks =
        generate_schedule(vec![subject("Math", u32::MAX, 0)], 45, Some("math".to_string()));
    assert_eq!(blocks, vec![block("Math", 45)]);
}

#[test]
fn minimums_over_budget_are_scaled() {
    let blocks = generate_schedule(vec![subject("A", 1, 60), subject("B", 1, 60)], 60, None);
    assert_eq!(blocks, vec![block("A", 30), block("B", 30)]);
}

#[test]
fn scaled_minimums_are_rounded_and_raised_to_ten() {
    let subjects = vec![weighted("A", 1, 100), weighted("B", 1, 50), weighted("C", 1, 3)];
    let scaled = scale_minimums(&subjects, 51);
    // 100 * 51 / 153 = 33.33, 50 * 51 / 153 = 16.67, 3 * 51 / 153 = 1
    assert_eq!(scaled.iter().map(|s| s.min_minutes).collect::<Vec<_>>(), vec![33, 17, 10]);
    assert_eq!(names(&scaled), vec!["A", "B", "C"]);
}

#[test]
fn lowest_priorities_leave_while_the_rest_does_not_fit() {
    let subjects = vec![subject("A", 2, 30), subject("B", 1, 30), subject("C", 3, 30)];
    assert_eq!(generate_schedule(subjects, 15, None), vec![block("C", 15)]);
}

#[test]
fn survivors_come_in_ascending_priority() {
    let subjects = vec![subject("A", 3, 40), subject("B", 1, 40), subject("C", 2, 40)];
    // scaled to 10 each, 30 > 25: sorted B, C, A; B leaves; 5 spare over weights 2 and 3
    assert_eq!(generate_schedule(subjects, 25, None), vec![block("C", 12), block("A", 13)]);
}

#[test]
fn every_subject_may_leave() {
    assert_eq!(generate_schedule(vec![subject("A", 1, 100)], 5, None), Vec::<Block>::new());
}

#[test]
fn sorting_keeps_the_order_of_equal_priorities() {
    let subjects = vec![
        weighted("a", 2, 1),
        weighted("b", 1, 2),
        weighted("c", 2, 3),
        weighted("d", 1, 4),
        weighted("e", 0, 5),
    ];
    let sorted = sort_by_priority(&subjects);
    assert_eq!(names(&sorted), vec!["e", "b", "d", "a", "c"]);
    assert_eq!(sorted.iter().map(|s| s.min_minutes).collect::<Vec<_>>(), vec![5, 2, 4, 1, 3]);
}

#[test]
fn sorting_counts_the_focus_bonus() {
    let mut focus = weighted("focus", 2, 0);
    focus.focused = true;
    let sorted = sort_by_priority(&vec![focus, weighted("other", 3, 0)]);
    assert_eq!(names(&sorted), vec!["other", "focus"]);
}

#[test]
fn dropping_stops_as_soon_as_the_rest_fits() {
    let subjects = vec![weighted("a", 1, 20), weighted("b", 2, 20), weighted("c", 3, 20)];
    assert_eq!(names(&drop_lowest(&subjects, 60)), vec!["a", "b", "c"]);
    assert_eq!(names(&drop_lowest(&subjects, 59)), vec!["b", "c"]);
    assert_eq!(names(&drop_lowest(&subjects, 20)), vec!["c"]);
    assert_eq!(names(&drop_lowest(&subjects, 19)), Vec::<String>::new());
}

#[test]
fn fitting_leaves_minimums_that_fit_alone() {
    let subjects = vec![weighted("a", 5, 20), weighted("b", 1, 20)];
    assert_eq!(fit_to_budget(subjects.clone(), 40), subjects);
}

#[test]
fn sums_of_minimums_and_weights() {
    let mut subjects = vec![weighted("a", 5, 20), weighted("b", 1, 22)];
    subjects[1].focused = true;
    assert_eq!(sum_minimums(&subjects), 42);
    assert_eq!(sum_weights(&subjects), 7);
    assert_eq!(sum_minimums(&Vec::new()), 0);
}

#[test]
fn weights_of_zero_leave_the_spare_minutes_unused() {
    assert_eq!(generate_schedule(vec![subject("A", 0, 10)], 30, None), vec![block("A", 10)]);
}

#[test]
fn weight_of_zero_keeps_its_minimum_only() {
    let blocks = generate_schedule(vec![subject("A", 0, 15), subject("B", 2, 15)], 60, None);
    assert_eq!(blocks, vec![block("A", 15), block("B", 45)]);
}

#[test]
fn blocks_under_ten_minutes_are_dropped() {
    let blocks = generate_schedule(vec![subject("A", 1, 0), subject("B", 0, 9)], 40, None);
    assert_eq!(blocks, vec![block("A", 31)]);
    let kept = drop_short_blocks(vec![block("a", 9), block("b", 10), block("c", 0), block("d", 11)]);
    assert_eq!(kept, vec![block("b", 10), block("d", 11)]);
}

#[test]
fn unfiltered_blocks_keep_the_short_ones() {
    let blocks = allot_blocks(&vec![weighted("A", 1, 0), weighted("B", 0, 9)], 40);
    assert_eq!(blocks, vec![block("A", 31), block("B", 9)]);
    assert_eq!(blocks.iter().map(|b| b.minutes).sum::<u32>(), 40);
}

#[test]
fn allotting_adds_minimum_share_and_turn() {
    let subjects = vec![weighted("a", 1, 5), weighted("b", 1, 6), weighted("c", 1, 7)];
    // 82 spare: 27 each, one left over for the first
    assert_eq!(allot_minutes(&subjects, 100), vec![33, 33, 34]);
    assert_eq!(allot_minutes(&Vec::new(), 100), Vec::<u32>::new());
}

#[test]
fn minutes_go_round_in_turn() {
    let mut places = vec![10, 10, 10];
    spread_in_turn(&mut places, 7);
    assert_eq!(places, vec![13, 12, 12]);
    spread_in_turn(&mut places, 0);
    assert_eq!(places, vec![13, 12, 12]);
    let mut one = vec![1];
    spread_in_turn(&mut one, 5);
    assert_eq!(one, vec![6]);
}

#[test]
fn shares_round_a_half_upwards() {
    assert_eq!(round_share(10, 3, 4), 8);
    assert_eq!(round_share(10, 1, 4), 3);
    assert_eq!(round_share(10, 1, 3), 3);
    assert_eq!(round_share(10, 2, 3), 7);
    assert_eq!(round_share(0, 1, 3), 0);
    assert_eq!(round_share(7, 0, 3), 0);
    assert_eq!(round_share(u32::MAX, 5, 5), u32::MAX);
}
