use study_planner::clock::TimeOfDay;
use study_planner::model::{Block, UiBlock};
use study_planner::placement::blocks_to_ui_blocks;
use study_planner::text::{decimal_string, digit_str, eq_ignoring_case, lowered_equal, push_decimal};

fn at(hour: u32, minute: u32) -> TimeOfDay {
    TimeOfDay::new(hour, minute).unwrap()
}

fn placed(start: &str, end: &str, subject: &str, minutes: u32) -> UiBlock {
    UiBlock { start: start.to_string(), end: end.to_string(), subject: subject.to_string(), minutes }
}

#[test]
fn a_time_has_an_hour_below_24_and_a_minute_below_60() {
    assert_eq!(at(0, 0).minute_of_day(), 0);
    assert_eq!(at(23, 59).minute_of_day(), 1439);
    assert_eq!(at(8, 5).hour(), 8);
    assert_eq!(at(8, 5).minute(), 5);
    assert_eq!(TimeOfDay::new(24, 0), None);
    assert_eq!(TimeOfDay::new(23, 60), None);
    assert_eq!(TimeOfDay::default_start(), at(8, 0));
}

#[test]
fn times_are_read_from_hours_colon_minutes() {
    assert_eq!(TimeOfDay::parse("08:00"), Some(at(8, 0)));
    assert_eq!(TimeOfDay::parse("23:59"), Some(at(23, 59)));
    assert_eq!(TimeOfDay::parse("7:15"), Some(at(7, 15)));
    assert_eq!(TimeOfDay::parse("17:60"), None);
    assert_eq!(TimeOfDay::parse("24:00"), None);
    assert_eq!(TimeOfDay::parse("08:00:00"), None);
    assert_eq!(TimeOfDay::parse("soon"), None);
    assert_eq!(TimeOfDay::parse(""), None);
}

#[test]
fn a_text_that_is_no_time_gives_the_fallback() {
    assert_eq!(TimeOfDay::parse_or("09:30", at(8, 0)), at(9, 30));
    assert_eq!(TimeOfDay::parse_or("nine", at(8, 0)), at(8, 0));
}

#[test]
fn parsed_fields_out_of_range_give_no_time() {
    assert_eq!(TimeOfDay::from_parsed(Some((7, 15))), Some(at(7, 15)));
    assert_eq!(TimeOfDay::from_parsed(Some((24, 0))), None);
    assert_eq!(TimeOfDay::from_parsed(Some((0, 60))), None);
    assert_eq!(TimeOfDay::from_parsed(None), None);
}

#[test]
fn adding_minutes_wraps_at_midnight() {
    assert_eq!(at(8, 0).plus_minutes(38), at(8, 38));
    assert_eq!(at(8, 38).plus_minutes(23), at(9, 1));
    assert_eq!(at(23, 30).plus_minutes(45), at(0, 15));
    assert_eq!(at(12, 0).plus_minutes(1440), at(12, 0));
    assert_eq!(at(0, 0).plus_minutes(0), at(0, 0));
    // 4294967295 = 2982616 days and 255 minutes
    assert_eq!(at(1, 0).plus_minutes(u32::MAX), at(5, 15));
}

#[test]
fn minutes_between_times_are_never_negative() {
    assert_eq!(at(8, 0).minutes_until(&at(9, 30)), 90);
    assert_eq!(at(0, 0).minutes_until(&at(23, 59)), 1439);
    assert_eq!(at(9, 30).minutes_until(&at(8, 0)), 0);
    assert_eq!(at(9, 30).minutes_until(&at(9, 30)), 0);
}

#[test]
fn times_are_written_with_two_digits_each() {
    assert_eq!(at(8, 5).to_text(), "08:05");
    assert_eq!(at(0, 0).to_text(), "00:00");
    assert_eq!(at(23, 59).to_text(), "23:59");
    assert_eq!(at(10, 30).to_text(), "10:30");
}

#[test]
fn blocks_follow_one_another_from_the_start() {
    let blocks = vec![
        Block { subject_name: "Math".to_string(), minutes: 38 },
        Block { subject_name: "History".to_string(), minutes: 23 },
        Block { subject_name: "Art".to_string(), minutes: 0 },
        Block { subject_name: "Music".to_string(), minutes: 120 },
    ];
    assert_eq!(
        blocks_to_ui_blocks(blocks, at(8, 0)),
        vec![
            placed("08:00", "08:38", "Math", 38),
            placed("08:38", "09:01", "History", 23),
            placed("09:01", "09:01", "Art", 0),
            placed("09:01", "11:01", "Music", 120),
        ]
    );
}

#[test]
fn a_plan_that_passes_midnight_goes_on_in_the_small_hours() {
    let blocks = vec![
        Block { subject_name: "Late".to_string(), minutes: 90 },
        Block { subject_name: "Later".to_string(), minutes: 1500 },
    ];
    assert_eq!(
        blocks_to_ui_blocks(blocks, at(23, 0)),
        vec![placed("23:00", "00:30", "Late", 90), placed("00:30", "01:30", "Later", 1500)]
    );
}

#[test]
fn no_block_gives_no_placed_block() {
    assert_eq!(blocks_to_ui_blocks(Vec::new(), at(8, 0)), Vec::<UiBlock>::new());
}

#[test]
fn numbers_are_written_in_decimal() {
    assert_eq!(decimal_string(0), "0");
    assert_eq!(decimal_string(7), "7");
    assert_eq!(decimal_string(10), "10");
    assert_eq!(decimal_string(512), "512");
    assert_eq!(decimal_string(1_000_000), "1000000");
    assert_eq!(decimal_string(u32::MAX), "4294967295");
    let mut out = "n=".to_string();
    push_decimal(&mut out, 90);
    assert_eq!(out, "n=90");
    assert_eq!(digit_str(0), "0");
    assert_eq!(digit_str(9), "9");
}

#[test]
fn names_are_compared_without_regard_to_case() {
    assert!(eq_ignoring_case("Math", "mATH"));
    assert!(eq_ignoring_case("", ""));
    assert!(eq_ignoring_case("HISTÓRIA", "história"));
    assert!(!eq_ignoring_case("Math", "Maths"));
    assert!(!eq_ignoring_case("Math", " math"));
    assert!(lowered_equal(&"math".to_string(), &"math".to_string()));
    assert!(!lowered_equal(&"math".to_string(), &"Math".to_string()));
}
