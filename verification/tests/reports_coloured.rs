use bevy_testing::AssertQuery;

#[test]
fn report_of_a_length_mismatch_in_colours() {
    colored::control::set_override(true);
    let failure = AssertQuery::new(vec![7u32, 8, 9]).length(2).unwrap_err();
    assert_eq!(
        failure.report(),
        "\u{1b}[31mThe length of the query result mismatches.\u{1b}[0m\n\u{1b}[90mGiven:\u{1b}[0m 2\n\n\u{1b}[90mFound:\u{1b}[0m 3\n"
    );
}

#[test]
fn report_of_an_unexpected_match_in_colours() {
    colored::control::set_override(true);
    let failure = AssertQuery::new(vec![7u32, 8]).not().has(8).unwrap_err();
    assert_eq!(
        failure.report(),
        "\u{1b}[31mThe query contains all given bundles\u{1b}[0m\n\u{1b}[90mMatch:\u{1b}[0m 8\n"
    );
}
