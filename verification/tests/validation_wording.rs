use notification_worker::validation::{
    describe_error, describe_errors, label_errors, warn_validation_errors, FieldIssue,
    IssueParam, ValidationIssue,
};
use std::borrow::Cow;

fn number(name: &str, json: &str) -> IssueParam {
    IssueParam { name: name.to_string(), json: json.to_string(), text: None }
}

fn string(name: &str, content: &str) -> IssueParam {
    IssueParam {
        name: name.to_string(),
        json: format!("{:?}", content),
        text: Some(content.to_string()),
    }
}

fn issue(code: &str, params: Vec<IssueParam>) -> ValidationIssue {
    ValidationIssue {
        code: code.to_string(),
        message: None,
        params,
        display: format!("Validation error: {} [..]", code),
    }
}

fn field(name: &str, issue: ValidationIssue) -> FieldIssue {
    FieldIssue { field: name.to_string(), issue }
}

/// What a driver of the library does with an error of the `validator`
/// crate: it hands over the code, the message, each parameter as JSON text,
/// and the error's own display.
fn from_validator(error: &validator::ValidationError) -> ValidationIssue {
    let params: Vec<IssueParam> = error
        .params
        .iter()
        .map(|(name, value)| IssueParam {
            name: name.to_string(),
            json: value.to_string(),
            text: value.as_str().map(|s| s.to_string()),
        })
        .collect();
    ValidationIssue {
        code: error.code.to_string(),
        message: error.message.as_ref().map(|m| m.to_string()),
        params,
        display: error.to_string(),
    }
}

#[test]
fn an_error_with_a_message_is_described_by_it() {
    let mut i = issue("range", vec![number("min", "1"), number("value", "0")]);
    i.message = Some("Please enter a valid email address".to_string());
    assert_eq!(describe_error(&i), "Please enter a valid email address");
}

#[test]
fn a_message_among_the_parameters_is_used_when_it_is_a_text() {
    let i = issue("range", vec![string("message", "too small"), number("min", "1")]);
    assert_eq!(describe_error(&i), "too small");
}

#[test]
fn a_message_among_the_parameters_is_ignored_when_it_is_no_text() {
    let i = issue("range", vec![number("message", "12"), number("min", "1")]);
    assert_eq!(describe_error(&i), "must be 1 or larger");
}

#[test]
fn the_message_of_the_error_wins_over_the_one_among_the_parameters() {
    let mut i = issue("x", vec![string("message", "from params")]);
    i.message = Some("from error".to_string());
    assert_eq!(describe_error(&i), "from error");
}

#[test]
fn range_with_a_minimum() {
    assert_eq!(describe_error(&issue("range", vec![number("min", "1")])), "must be 1 or larger");
}

#[test]
fn range_with_a_maximum() {
    assert_eq!(
        describe_error(&issue("range", vec![number("max", "10.5")])),
        "must be 10.5 or smaller"
    );
}

#[test]
fn range_with_both_bounds() {
    assert_eq!(
        describe_error(&issue("range", vec![number("max", "10"), number("min", "1")])),
        "must be from 1 to 10"
    );
}

#[test]
fn range_names_the_value_when_it_is_known() {
    assert_eq!(
        describe_error(&issue("range", vec![number("min", "1"), number("value", "-3")])),
        "value -3 invalid, must be 1 or larger"
    );
}

#[test]
fn range_without_bounds_falls_back_to_the_display() {
    assert_eq!(describe_error(&issue("range", vec![])), "Validation error: range [..]");
    assert_eq!(
        describe_error(&issue("range", vec![number("value", "7")])),
        "value 7 invalid, Validation error: range [..]"
    );
}

#[test]
fn length_that_must_be_exact() {
    assert_eq!(
        describe_error(&issue("length", vec![number("equal", "5")])),
        "must be exactly 5 characters"
    );
    assert_eq!(
        describe_error(&issue(
            "length",
            vec![number("min", "1"), number("max", "9"), number("equal", "5")]
        )),
        "must be exactly 5 characters"
    );
}

#[test]
fn length_with_a_minimum() {
    assert_eq!(
        describe_error(&issue("length", vec![number("min", "3")])),
        "must be at least 3 characters"
    );
}

#[test]
fn length_with_a_maximum() {
    assert_eq!(
        describe_error(&issue("length", vec![number("max", "8")])),
        "must be at most 8 characters"
    );
}

#[test]
fn length_with_both_bounds() {
    assert_eq!(
        describe_error(&issue("length", vec![number("min", "3"), number("max", "8")])),
        "must be from 3 to 8 characters"
    );
}

#[test]
fn length_quotes_a_text_value_as_json() {
    assert_eq!(
        describe_error(&issue("length", vec![number("min", "3"), string("value", "ab")])),
        "value \"ab\" invalid, must be at least 3 characters"
    );
}

#[test]
fn length_without_bounds_falls_back_to_the_display() {
    assert_eq!(describe_error(&issue("length", vec![])), "Validation error: length [..]");
}

#[test]
fn must_not_match_with_everything_known() {
    assert_eq!(
        describe_error(&issue(
            "must_not_match",
            vec![
                string("value", "a"),
                string("other_field", "password"),
                string("other_value", "a"),
            ]
        )),
        "value \"a\" must not match \"a\" in \"password\""
    );
}

#[test]
fn must_not_match_without_the_other_value() {
    assert_eq!(
        describe_error(&issue(
            "must_not_match",
            vec![string("value", "a"), string("other_field", "password")]
        )),
        "value \"a\" must not match value in \"password\""
    );
}

#[test]
fn must_not_match_without_the_value() {
    assert_eq!(
        describe_error(&issue(
            "must_not_match",
            vec![string("other_field", "password"), number("other_value", "1")]
        )),
        "must not match 1 in \"password\""
    );
    assert_eq!(
        describe_error(&issue("must_not_match", vec![string("other_field", "password")])),
        "must not match value in \"password\""
    );
}

#[test]
fn must_not_match_without_the_other_field_falls_back_to_the_display() {
    assert_eq!(
        describe_error(&issue(
            "must_not_match",
            vec![string("value", "a"), string("other_value", "a")]
        )),
        "Validation error: must_not_match [..]"
    );
    assert_eq!(
        describe_error(&issue("must_not_match", vec![])),
        "Validation error: must_not_match [..]"
    );
}

#[test]
fn does_not_contain_names_the_pattern() {
    assert_eq!(
        describe_error(&issue("does_not_contain", vec![string("pattern", "<script>")])),
        "cannot contain \"<script>\""
    );
    assert_eq!(
        describe_error(&issue("does_not_contain", vec![])),
        "Validation error: does_not_contain [..]"
    );
}

#[test]
fn not_empty_and_closed_line_have_fixed_wordings() {
    assert_eq!(
        describe_error(&issue("not_empty", vec![number("value", "[]")])),
        "value invalid, must not be empty"
    );
    assert_eq!(
        describe_error(&issue("closed_line", vec![])),
        "value invalid, the first and the last points should be same to form a closed line"
    );
}

#[test]
fn min_line_length_needs_both_parameters() {
    assert_eq!(
        describe_error(&issue(
            "min_line_length",
            vec![number("min_length", "4"), number("length", "2")]
        )),
        "value invalid, the size must be at least 4, got 2"
    );
    assert_eq!(
        describe_error(&issue("min_line_length", vec![number("min_length", "4")])),
        "Validation error: min_line_length [..]"
    );
    assert_eq!(
        describe_error(&issue("min_line_length", vec![number("length", "2")])),
        "Validation error: min_line_length [..]"
    );
}

#[test]
fn an_unknown_code_falls_back_to_the_display() {
    assert_eq!(
        describe_error(&issue("email", vec![string("value", "nobody")])),
        "Validation error: email [..]"
    );
    assert_eq!(describe_error(&issue("", vec![])), "Validation error:  [..]");
    assert_eq!(describe_error(&issue("Range", vec![number("min", "1")])), "Validation error: Range [..]");
}

#[test]
fn the_first_of_two_parameters_with_one_name_counts() {
    assert_eq!(
        describe_error(&issue("range", vec![number("min", "1"), number("min", "2")])),
        "must be 1 or larger"
    );
}

#[test]
fn describe_errors_keeps_fields_and_order() {
    let items = vec![
        field("age", issue("range", vec![number("min", "18")])),
        field("name", issue("length", vec![number("max", "20")])),
    ];
    assert_eq!(
        describe_errors(&items),
        vec![
            ("age".to_string(), "must be 18 or larger".to_string()),
            ("name".to_string(), "must be at most 20 characters".to_string()),
        ]
    );
    assert!(describe_errors(&Vec::new()).is_empty());
}

#[test]
fn label_errors_lists_the_entries_in_brackets() {
    let items = vec![
        field("age", issue("range", vec![number("min", "18")])),
        field("name", issue("length", vec![number("max", "20")])),
    ];
    assert_eq!(
        label_errors("Validation error in query", &items),
        "Validation error in query: [age: must be 18 or larger; name: must be at most 20 characters]"
    );
}

#[test]
fn label_errors_with_one_and_with_no_error() {
    let one = vec![field("age", issue("not_empty", vec![]))];
    assert_eq!(label_errors("x", &one), "x: [age: value invalid, must not be empty]");
    assert_eq!(label_errors("x", &Vec::new()), "x: []");
    assert_eq!(label_errors("", &Vec::new()), ": []");
}

#[test]
fn warning_has_a_heading_and_a_line_for_each_error() {
    let items = vec![
        field("age", issue("range", vec![number("min", "18")])),
        field("tags[1].name", issue("not_empty", vec![])),
    ];
    assert_eq!(
        warn_validation_errors("Settings", &items),
        vec![
            "Settings has validation errors:",
            "- age: must be 18 or larger",
            "- tags[1].name: value invalid, must not be empty",
        ]
    );
    assert_eq!(warn_validation_errors("Settings", &Vec::new()), vec!["Settings has validation errors:"]);
}

#[test]
fn an_error_of_the_validator_crate_is_described() {
    let mut error = validator::ValidationError::new("range");
    error.add_param(Cow::from("min"), &1);
    error.add_param(Cow::from("max"), &10);
    error.add_param(Cow::from("value"), &42);
    assert_eq!(describe_error(&from_validator(&error)), "value 42 invalid, must be from 1 to 10");

    let mut error = validator::ValidationError::new("length");
    error.add_param(Cow::from("min"), &3);
    error.add_param(Cow::from("value"), &"a\"b");
    assert_eq!(
        describe_error(&from_validator(&error)),
        "value \"a\\\"b\" invalid, must be at least 3 characters"
    );

    let error = validator::ValidationError::new("email")
        .with_message(Cow::from("Please enter a valid email address"));
    assert_eq!(describe_error(&from_validator(&error)), "Please enter a valid email address");

    let error = validator::ValidationError::new("custom");
    assert_eq!(describe_error(&from_validator(&error)), "Validation error: custom [{}]");
}

#[test]
fn the_errors_of_a_request_are_labelled() {
    let mut errors = validator::ValidationErrors::new();
    let mut error = validator::ValidationError::new("range");
    error.add_param(Cow::from("min"), &1);
    errors.add("limit", error);
    let items: Vec<FieldIssue> = actix_web_validator::error::flatten_errors(&errors)
        .into_iter()
        .map(|(_, name, error)| FieldIssue { field: name, issue: from_validator(error) })
        .collect();
    assert_eq!(
        label_errors("Validation error in query", &items),
        "Validation error in query: [limit: must be 1 or larger]"
    );
}
