use bevy_testing::report::decimal;
use bevy_testing::report::lay_out_mismatch;
use bevy_testing::report::lay_out_unexpected;
use bevy_testing::report::preview;
use bevy_testing::report::section;
use bevy_testing::report::spans_lines;
use bevy_testing::report::PREVIEW_LEN;
use bevy_testing::AssertQuery;
use bevy_testing::Failure;
use bevy_testing::Mismatch;
use bevy_testing::Shown;
use bevy_testing::Unexpected;

#[derive(Debug, PartialEq)]
struct Position {
    x: i32,
    y: i32,
}

fn plain() {
    colored::control::set_override(false);
}

#[test]
fn preview_length_is_three_hundred() {
    assert_eq!(PREVIEW_LEN, 300);
}

#[test]
fn preview_keeps_a_short_rendering() {
    assert_eq!(preview(String::new()), "");
    assert_eq!(preview(String::from("Position")), "Position");
}

#[test]
fn preview_keeps_a_rendering_of_exactly_the_limit() {
    let rendering = "a".repeat(300);
    assert_eq!(preview(rendering.clone()), rendering);
}

#[test]
fn preview_cuts_a_rendering_over_the_limit() {
    let rendering = format!("{}{}", "a".repeat(300), "b");
    assert_eq!(preview(rendering), format!("{} ...", "a".repeat(300)));
    let long = "xy".repeat(400);
    let cut = preview(long);
    assert_eq!(cut.chars().count(), 304);
    assert_eq!(cut, format!("{} ...", "xy".repeat(150)));
}

#[test]
fn preview_counts_characters_not_bytes() {
    let rendering = "é".repeat(300);
    assert_eq!(preview(rendering.clone()), rendering);
    let longer = "é".repeat(301);
    assert_eq!(preview(longer), format!("{} ...", "é".repeat(300)));
}

#[test]
fn spans_lines_looks_for_a_line_break() {
    assert!(!spans_lines(""));
    assert!(!spans_lines("one line"));
    assert!(spans_lines("two\nlines"));
    assert!(spans_lines("ends with a break\n"));
}

#[test]
fn section_puts_one_line_after_the_label() {
    assert_eq!(section("Given:", "None"), "Given: None\n");
}

#[test]
fn section_puts_several_lines_under_the_label() {
    assert_eq!(
        section("Found:", "Position {\n    x: 1,\n}"),
        "Found:\nPosition {\n    x: 1,\n}\n"
    );
}

#[test]
fn mismatch_layout() {
    assert_eq!(
        lay_out_mismatch("Headline", "Given:", "2", "Found:", "[\n    1,\n]"),
        "Headline\nGiven: 2\n\nFound:\n[\n    1,\n]\n"
    );
}

#[test]
fn unexpected_layout() {
    assert_eq!(
        lay_out_unexpected("Headline", "Match:", "3"),
        "Headline\nMatch: 3\n"
    );
    assert_eq!(
        lay_out_unexpected("Headline", "Match:", "a\nb"),
        "Headline\nMatch:\na\nb\n"
    );
}

#[test]
fn decimal_writes_numbers_as_std_does() {
    assert_eq!(decimal(0), "0");
    assert_eq!(decimal(7), "7");
    assert_eq!(decimal(10), "10");
    assert_eq!(decimal(300), "300");
    assert_eq!(decimal(1_000_000), "1000000");
    assert_eq!(decimal(usize::MAX), format!("{:#?}", usize::MAX));
}

#[test]
fn render_nothing_count_and_predicate() {
    assert_eq!(Shown::<u32>::Nothing.render(), format!("{:#?}", None::<()>));
    assert_eq!(Shown::<u32>::Nothing.render(), "None");
    assert_eq!(Shown::<u32>::Count(42).render(), "42");
    assert_eq!(
        Shown::<u32>::Predicate.render(),
        format!("{:#?}", "impl Fn(&D::Item<'w>) -> bool")
    );
}

#[test]
fn render_records_as_debug_writes_them() {
    let p = Position { x: 1, y: -2 };
    assert_eq!(
        Shown::Record(Position { x: 1, y: -2 }).render(),
        "Position {\n    x: 1,\n    y: -2,\n}"
    );
    assert_eq!(Shown::Record(5u32).render(), "5");
    assert_eq!(Shown::Records(vec![1u32, 2]).render(), "[\n    1,\n    2,\n]");
    assert_eq!(Shown::Records(Vec::<u32>::new()).render(), "[]");
    assert_eq!(Shown::First(5u32).render(), "Some(\n    5,\n)");
    assert_eq!(Shown::First(p).render(), format!("{:#?}", Some(&Position { x: 1, y: -2 })));
}

#[test]
fn headlines_of_mismatches() {
    assert_eq!(
        Mismatch::UnexpectedRecord.headline(),
        "The query contains an unexpected bundle."
    );
    assert_eq!(
        Mismatch::MissingRecord.headline(),
        "One of the given bundles wasn't found in the query."
    );
    assert_eq!(
        Mismatch::LengthsDiffer.headline(),
        "The length of the query result and the given result mismatches."
    );
    assert_eq!(
        Mismatch::RecordNotFound.headline(),
        "The given bundle wasn't found in the query."
    );
    assert_eq!(
        Mismatch::NoneFound.headline(),
        "None of the given bundles were found in the query."
    );
    assert_eq!(
        Mismatch::PredicateFailed.headline(),
        "The predicate fails on one of the bundles"
    );
    assert_eq!(
        Mismatch::PredicateMatchedNone.headline(),
        "The predicate didn't match on any of the bundles"
    );
    assert_eq!(
        Mismatch::LengthDiffers.headline(),
        "The length of the query result mismatches."
    );
}

#[test]
fn headlines_of_unexpected_matches() {
    assert_eq!(
        Unexpected::Matches.headline(),
        "The query matches with the given bundles"
    );
    assert_eq!(Unexpected::Has.headline(), "The query contains all given bundles");
    assert_eq!(Unexpected::HasAll.headline(), "The query has all given bundles.");
    assert_eq!(
        Unexpected::HasAny.headline(),
        "Some of the given bundles were found in the query."
    );
    assert_eq!(
        Unexpected::All.headline(),
        "The predicate matches on all of the bundles."
    );
    assert_eq!(
        Unexpected::Any.headline(),
        "The predicate matched on one of the bundles"
    );
    assert_eq!(
        Unexpected::Length.headline(),
        "The length of the query result matches."
    );
}

#[test]
fn report_of_a_length_mismatch_without_colours() {
    plain();
    let failure = AssertQuery::new(vec![7u32, 8, 9]).length(2).unwrap_err();
    assert_eq!(
        failure.report(),
        "The length of the query result mismatches.\nGiven: 2\n\nFound: 3\n"
    );
}

#[test]
fn report_of_a_missing_record_without_colours() {
    plain();
    let q = AssertQuery::new(vec![Position { x: 0, y: 0 }]);
    let failure = q.has(Position { x: 1, y: 2 }).unwrap_err();
    assert_eq!(
        failure.report(),
        "The given bundle wasn't found in the query.\nGiven:\nPosition {\n    x: 1,\n    y: 2,\n}\n\nFound: None\n"
    );
}

#[test]
fn report_of_a_failed_predicate_without_colours() {
    plain();
    let failure = AssertQuery::new(vec![2u32, 3]).all(|n| n % 2 == 0).unwrap_err();
    assert_eq!(
        failure.report(),
        "The predicate fails on one of the bundles\nGiven: \"impl Fn(&D::Item<'w>) -> bool\"\n\nFound: 3\n"
    );
}

#[test]
fn report_of_an_unexpected_match_without_colours() {
    plain();
    let failure = AssertQuery::new(vec![7u32, 8]).not().length(2).unwrap_err();
    assert_eq!(
        failure.report(),
        "The length of the query result matches.\nMatch: 2\n"
    );
    let failure = AssertQuery::new(vec![7u32, 8]).not().has_any(vec![8]).unwrap_err();
    assert_eq!(
        failure.report(),
        "Some of the given bundles were found in the query.\nMatch:\nSome(\n    8,\n)\n"
    );
}

#[test]
fn report_cuts_a_long_list_down_to_a_preview() {
    plain();
    let given: Vec<u32> = (0..200).collect();
    let failure = Failure::Mismatch {
        kind: Mismatch::NoneFound,
        given: Shown::Records(given.clone()),
        found: Shown::Nothing,
    };
    let rendering = format!("{:#?}", given);
    assert!(rendering.len() > 300);
    let expected = format!(
        "None of the given bundles were found in the query.\nGiven:\n{} ...\n\nFound: None\n",
        &rendering[0..300]
    );
    assert_eq!(failure.report(), expected);
}
