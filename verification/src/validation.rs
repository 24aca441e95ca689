//! Wording for the validation errors of a request.
//!
//! A validation error comes with a code, an optional message, and named
//! parameters. Where it brings no message of its own, the code and the
//! parameters say what to tell the caller.

use vstd::prelude::*;
use vstd::string::*;
use crate::text::{join, joined};

verus! {

/// One parameter of a validation error.
#[derive(Clone, Debug, PartialEq, Eq)]
pub struct IssueParam {
    /// The parameter's name.
    pub name: String,
    /// The parameter's value, written as compact JSON.
    pub json: String,
    /// The text itself, where the value is a JSON string.
    pub text: Option<String>,
}

/// One validation error of one field.
#[derive(Clone, Debug, PartialEq, Eq)]
pub struct ValidationIssue {
    /// What kind of rule was broken, such as `range` or `length`.
    pub code: String,
    /// The message that the rule brings along, if any.
    pub message: Option<String>,
    /// The parameters of the rule and the offending value. A name stands for
    /// one parameter: where it occurs twice, the first occurrence counts.
    pub params: Vec<IssueParam>,
    /// The error in the validator's own words: what is said where the code
    /// and the parameters give nothing better.
    pub display: String,
}

/// A validation error together with the path of the field it is about.
#[derive(Clone, Debug, PartialEq, Eq)]
pub struct FieldIssue {
    pub field: String,
    pub issue: ValidationIssue,
}

/// The mathematical content of an `IssueParam`.
pub struct IssueParamView {
    pub name: Seq<char>,
    pub json: Seq<char>,
    pub text: Option<Seq<char>>,
}

/// The mathematical content of a `ValidationIssue`.
pub struct ValidationIssueView {
    pub code: Seq<char>,
    pub message: Option<Seq<char>>,
    pub params: Seq<IssueParamView>,
    pub display: Seq<char>,
}

/// The mathematical content of a `FieldIssue`.
pub struct FieldIssueView {
    pub field: Seq<char>,
    pub issue: ValidationIssueView,
}

impl View for IssueParam {
    type V = IssueParamView;

    open spec fn view(&self) -> IssueParamView {
        IssueParamView { name: self.name@, json: self.json@, text: self.text.deep_view() }
    }
}

impl DeepView for IssueParam {
    type V = IssueParamView;

    open spec fn deep_view(&self) -> IssueParamView {
        self@
    }
}

impl View for ValidationIssue {
    type V = ValidationIssueView;

    open spec fn view(&self) -> ValidationIssueView {
        ValidationIssueView {
            code: self.code@,
            message: self.message.deep_view(),
            params: self.params.deep_view(),
            display: self.display@,
        }
    }
}

impl DeepView for ValidationIssue {
    type V = ValidationIssueView;

    open spec fn deep_view(&self) -> ValidationIssueView {
        self@
    }
}

impl View for FieldIssue {
    type V = FieldIssueView;

    open spec fn view(&self) -> FieldIssueView {
        FieldIssueView { field: self.field@, issue: self.issue@ }
    }
}

impl DeepView for FieldIssue {
    type V = FieldIssueView;

    open spec fn deep_view(&self) -> FieldIssueView {
        self@
    }
}

impl ValidationIssueView {
    /// No parameter name occurs twice.
    pub open spec fn well_formed(self) -> bool {
        forall|i: int, j: int|
            0 <= i < j < self.params.len() ==> (#[trigger] self.params[i]).name != (
            #[trigger] self.params[j]).name
    }

    /// The JSON text of the parameter `name`, if the error has it.
    pub open spec fn json(self, name: Seq<char>) -> Option<Seq<char>> {
        match param_named(self.params, name) {
            Some(param) => Some(param.json),
            None => None,
        }
    }
}

/// The first of `params` that has the name `name`.
pub open spec fn param_named(params: Seq<IssueParamView>, name: Seq<char>) -> Option<
    IssueParamView,
>
    decreases params.len(),
{
    if params.len() == 0 {
        None
    } else if params.first().name == name {
        Some(params.first())
    } else {
        param_named(params.drop_first(), name)
    }
}

/// The message that an error carries among its parameters: the parameter
/// `message`, where it is a text.
pub open spec fn message_param(issue: ValidationIssueView) -> Option<Seq<char>> {
    match param_named(issue.params, "message"@) {
        Some(param) => param.text,
        None => None,
    }
}

/// `text` with the offending value in front, where the error names it.
pub open spec fn with_value(issue: ValidationIssueView, text: Seq<char>) -> Seq<char> {
    match issue.json("value"@) {
        Some(value) => "value "@ + value + " invalid, "@ + text,
        None => text,
    }
}

/// The wording of a number out of range.
pub open spec fn range_description(issue: ValidationIssueView) -> Seq<char> {
    with_value(
        issue,
        match (issue.json("min"@), issue.json("max"@)) {
            (Some(min), None) => "must be "@ + min + " or larger"@,
            (Some(min), Some(max)) => "must be from "@ + min + " to "@ + max,
            (None, Some(max)) => "must be "@ + max + " or smaller"@,
            (None, None) => issue.display,
        },
    )
}

/// The wording of a text or a list of the wrong length.
pub open spec fn length_description(issue: ValidationIssueView) -> Seq<char> {
    with_value(
        issue,
        match (issue.json("equal"@), issue.json("min"@), issue.json("max"@)) {
            (Some(equal), _, _) => "must be exactly "@ + equal + " characters"@,
            (None, Some(min), None) => "must be at least "@ + min + " characters"@,
            (None, Some(min), Some(max)) => "must be from "@ + min + " to "@ + max
                + " characters"@,
            (None, None, Some(max)) => "must be at most "@ + max + " characters"@,
            (None, None, None) => issue.display,
        },
    )
}

/// The wording of a value that equals another field's though it must not.
pub open spec fn must_not_match_description(issue: ValidationIssueView) -> Seq<char> {
    match (issue.json("value"@), issue.json("other_field"@), issue.json("other_value"@)) {
        (Some(value), Some(other_field), Some(other_value)) => "value "@ + value
            + " must not match "@ + other_value + " in "@ + other_field,
        (Some(value), Some(other_field), None) => "value "@ + value
            + " must not match value in "@ + other_field,
        (None, Some(other_field), Some(other_value)) => "must not match "@ + other_value
            + " in "@ + other_field,
        (None, Some(other_field), None) => "must not match value in "@ + other_field,
        (_, None, _) => issue.display,
    }
}

/// The wording of a text that holds what it must not.
pub open spec fn does_not_contain_description(issue: ValidationIssueView) -> Seq<char> {
    match issue.json("pattern"@) {
        Some(pattern) => "cannot contain "@ + pattern,
        None => issue.display,
    }
}

/// The wording of a line with too few points.
pub open spec fn min_line_length_description(issue: ValidationIssueView) -> Seq<char> {
    match (issue.json("min_length"@), issue.json("length"@)) {
        (Some(min_length), Some(length)) => "value invalid, the size must be at least "@
            + min_length + ", got "@ + length,
        _ => issue.display,
    }
}

/// The wording that the code and the parameters of an error give.
pub open spec fn code_description(issue: ValidationIssueView) -> Seq<char> {
    if issue.code == "range"@ {
        range_description(issue)
    } else if issue.code == "length"@ {
        length_description(issue)
    } else if issue.code == "must_not_match"@ {
        must_not_match_description(issue)
    } else if issue.code == "does_not_contain"@ {
        does_not_contain_description(issue)
    } else if issue.code == "not_empty"@ {
        "value invalid, must not be empty"@
    } else if issue.code == "closed_line"@ {
        "value invalid, the first and the last points should be same to form a closed line"@
    } else if issue.code == "min_line_length"@ {
        min_line_length_description(issue)
    } else {
        issue.display
    }
}

/// What to tell the caller about an error: the error's own message where it
/// has one, else the text of its parameter `message`, else the wording that
/// its code and parameters give.
pub open spec fn description_of(issue: ValidationIssueView) -> Seq<char> {
    match issue.message {
        Some(message) => message,
        None => match message_param(issue) {
            Some(message) => message,
            None => code_description(issue),
        },
    }
}

/// One error as an entry of a list: the field, a colon, the description.
pub open spec fn entry_of(item: FieldIssueView) -> Seq<char> {
    item.field + ": "@ + description_of(item.issue)
}

/// The entries of `items`, in order.
pub open spec fn entries_of(items: Seq<FieldIssueView>) -> Seq<Seq<char>> {
    Seq::new(items.len(), |i: int| entry_of(items[i]))
}

/// All errors under one label: the label, a colon, and the entries in
/// square brackets, separated by semicolons.
pub open spec fn labelled(label: Seq<char>, items: Seq<FieldIssueView>) -> Seq<char> {
    label + ": ["@ + joined(entries_of(items), "; "@) + "]"@
}

/// The lines of a warning: a heading that names what was validated, then
/// one line for each error.
pub open spec fn warning_of(description: Seq<char>, items: Seq<FieldIssueView>) -> Seq<
    Seq<char>,
> {
    seq![description + " has validation errors:"@] + Seq::new(
        items.len(),
        |i: int| "- "@ + entry_of(items[i]),
    )
}

/// Where no name occurs twice, a parameter is found by its name wherever it
/// stands: the order of the parameters plays no part in the wording.
pub proof fn lemma_param_found(issue: ValidationIssueView, i: int)
    requires
        issue.well_formed(),
        0 <= i < issue.params.len(),
    ensures
        param_named(issue.params, issue.params[i].name) == Some(issue.params[i]),
    decreases i,
{
    let params = issue.params;
    if i > 0 {
        let rest = ValidationIssueView { params: params.drop_first(), ..issue };
        assert forall|a: int, b: int| 0 <= a < b < rest.params.len() implies (
        #[trigger] rest.params[a]).name != (#[trigger] rest.params[b]).name by {
            assert(rest.params[a] == params[a + 1]);
            assert(rest.params[b] == params[b + 1]);
        }
        assert(rest.params[i - 1] == params[i]);
        lemma_param_found(rest, i - 1);
        assert(params[0].name != params[i].name);
    }
}

/// A name that no parameter has is not found.
pub proof fn lemma_param_missing(params: Seq<IssueParamView>, name: Seq<char>)
    requires
        forall|i: int| 0 <= i < params.len() ==> (#[trigger] params[i]).name != name,
    ensures
        param_named(params, name) is None,
    decreases params.len(),
{
    if params.len() > 0 {
        assert(params.first() == params[0]);
        let rest = params.drop_first();
        assert forall|i: int| 0 <= i < rest.len() implies (#[trigger] rest[i]).name != name by {
            assert(rest[i] == params[i + 1]);
        }
        lemma_param_missing(rest, name);
    }
}

/// Finds the first parameter with the given name.
fn find_param<'a>(params: &'a Vec<IssueParam>, name: &str) -> (found: Option<&'a IssueParam>)
    ensures
        found.deep_view() == param_named(params.deep_view(), name@),
{
    let ghost all = params.deep_view();
    let wanted = String::from_str(name);
    let mut i: usize = 0;
    assert(all.subrange(0, all.len() as int) =~= all);
    while i < params.len()
        invariant
            i <= params.len(),
            all == params.deep_view(),
            all.len() == params.len(),
            wanted@ == name@,
            param_named(all, name@) == param_named(
                all.subrange(i as int, all.len() as int),
                name@,
            ),
        decreases params.len() - i,
    {
        let ghost rest = all.subrange(i as int, all.len() as int);
        assert(rest.first() == params[i as int]@);
        assert(rest.drop_first() =~= all.subrange(i + 1, all.len() as int));
        if params[i].name == wanted {
            return Some(&params[i]);
        }
        i += 1;
    }
    None
}

/// The JSON text of a parameter, if the error has it.
fn param_json<'a>(issue: &'a ValidationIssue, name: &str) -> (json: Option<&'a String>)
    ensures
        json.deep_view() == issue@.json(name@),
{
    match find_param(&issue.params, name) {
        Some(param) => Some(&param.json),
        None => None,
    }
}

/// Three texts in a row.
fn concat3(a: &str, b: &str, c: &str) -> (text: String)
    ensures
        text@ == a@ + b@ + c@,
{
    let mut text = String::from_str(a);
    text.append(b);
    text.append(c);
    text
}

/// Puts the offending value in front of `text`, where the error names it.
fn prefix_value(issue: &ValidationIssue, text: String) -> (full: String)
    ensures
        full@ == with_value(issue@, text@),
{
    match param_json(issue, "value") {
        Some(value) => {
            let mut full = concat3("value ", value.as_str(), " invalid, ");
            full.append(text.as_str());
            full
        },
        None => text,
    }
}

fn describe_range(issue: &ValidationIssue) -> (text: String)
    ensures
        text@ == range_description(issue@),
{
    let text = match (param_json(issue, "min"), param_json(issue, "max")) {
        (Some(min), None) => concat3("must be ", min.as_str(), " or larger"),
        (Some(min), Some(max)) => {
            let mut text = concat3("must be from ", min.as_str(), " to ");
            text.append(max.as_str());
            text
        },
        (None, Some(max)) => concat3("must be ", max.as_str(), " or smaller"),
        (None, None) => issue.display.clone(),
    };
    prefix_value(issue, text)
}

fn describe_length(issue: &ValidationIssue) -> (text: String)
    ensures
        text@ == length_description(issue@),
{
    let text = match (
        param_json(issue, "equal"),
        param_json(issue, "min"),
        param_json(issue, "max"),
    ) {
        (Some(equal), _, _) => concat3("must be exactly ", equal.as_str(), " characters"),
        (None, Some(min), None) => concat3("must be at least ", min.as_str(), " characters"),
        (None, Some(min), Some(max)) => {
            let mut text = concat3("must be from ", min.as_str(), " to ");
            text.append(max.as_str());
            text.append(" characters");
            text
        },
        (None, None, Some(max)) => concat3("must be at most ", max.as_str(), " characters"),
        (None, None, None) => issue.display.clone(),
    };
    prefix_value(issue, text)
}

fn describe_must_not_match(issue: &ValidationIssue) -> (text: String)
    ensures
        text@ == must_not_match_description(issue@),
{
    match (
        param_json(issue, "value"),
        param_json(issue, "other_field"),
        param_json(issue, "other_value"),
    ) {
        (Some(value), Some(other_field), Some(other_value)) => {
            let mut text = concat3("value ", value.as_str(), " must not match ");
            text.append(other_value.as_str());
            text.append(" in ");
            text.append(other_field.as_str());
            text
        },
        (Some(value), Some(other_field), None) => {
            let mut text = concat3("value ", value.as_str(), " must not match value in ");
            text.append(other_field.as_str());
            text
        },
        (None, Some(other_field), Some(other_value)) => {
            let mut text = concat3("must not match ", other_value.as_str(), " in ");
            text.append(other_field.as_str());
            text
        },
        (None, Some(other_field), None) => {
            let mut text = String::from_str("must not match value in ");
            text.append(other_field.as_str());
            text
        },
        (_, None, _) => issue.display.clone(),
    }
}

fn describe_does_not_contain(issue: &ValidationIssue) -> (text: String)
    ensures
        text@ == does_not_contain_description(issue@),
{
    match param_json(issue, "pattern") {
        Some(pattern) => {
            let mut text = String::from_str("cannot contain ");
            text.append(pattern.as_str());
            text
        },
        None => issue.display.clone(),
    }
}

fn describe_min_line_length(issue: &ValidationIssue) -> (text: String)
    ensures
        text@ == min_line_length_description(issue@),
{
    match (param_json(issue, "min_length"), param_json(issue, "length")) {
        (Some(min_length), Some(length)) => {
            let mut text = concat3(
                "value invalid, the size must be at least ",
                min_length.as_str(),
                ", got ",
            );
            text.append(length.as_str());
            text
        },
        _ => issue.display.clone(),
    }
}

/// Tells whether the error's code is `code`.
fn has_code(issue: &ValidationIssue, code: &str) -> (same: bool)
    ensures
        same == (issue@.code == code@),
{
    let code = String::from_str(code);
    issue.code == code
}

/// Words the error by its code and parameters.
fn describe_by_code(issue: &ValidationIssue) -> (text: String)
    ensures
        text@ == code_description(issue@),
{
    if has_code(issue, "range") {
        describe_range(issue)
    } else if has_code(issue, "length") {
        describe_length(issue)
    } else if has_code(issue, "must_not_match") {
        describe_must_not_match(issue)
    } else if has_code(issue, "does_not_contain") {
        describe_does_not_contain(issue)
    } else if has_code(issue, "not_empty") {
        String::from_str("value invalid, must not be empty")
    } else if has_code(issue, "closed_line") {
        String::from_str(
            "value invalid, the first and the last points should be same to form a closed line",
        )
    } else if has_code(issue, "min_line_length") {
        describe_min_line_length(issue)
    } else {
        issue.display.clone()
    }
}

/// Describes a validation error for the caller.
///
/// An error that brings a message is described by that message, and one
/// whose parameter `message` is a text by that text. Every other error is
/// worded by its code, with the parameters that the code calls for; where
/// the code is unknown or a parameter is missing, the validator's own words
/// stand.
pub fn describe_error(issue: &ValidationIssue) -> (text: String)
    ensures
        text@ == description_of(issue@),
{
    if let Some(message) = &issue.message {
        return message.clone();
    }
    if let Some(param) = find_param(&issue.params, "message") {
        if let Some(message) = &param.text {
            return message.clone();
        }
    }
    describe_by_code(issue)
}

/// Describes each error: the field's path and the description, in the order
/// of `items`.
pub fn describe_errors(items: &Vec<FieldIssue>) -> (described: Vec<(String, String)>)
    ensures
        described.len() == items.len(),
        forall|i: int|
            0 <= i < items.len() ==> (#[trigger] described[i]).0@ == items[i]@.field
                && described[i].1@ == description_of(items[i]@.issue),
{
    let mut described: Vec<(String, String)> = Vec::new();
    let mut i: usize = 0;
    while i < items.len()
        invariant
            i <= items.len(),
            described.len() == i,
            forall|j: int|
                0 <= j < i ==> (#[trigger] described[j]).0@ == items[j]@.field
                    && described[j].1@ == description_of(items[j]@.issue),
        decreases items.len() - i,
    {
        described.push((items[i].field.clone(), describe_error(&items[i].issue)));
        i += 1;
    }
    described
}

/// Writes the entries of a list of errors.
fn entries(items: &Vec<FieldIssue>) -> (lines: Vec<String>)
    ensures
        lines.deep_view() == entries_of(items.deep_view()),
{
    let mut lines: Vec<String> = Vec::new();
    let mut i: usize = 0;
    while i < items.len()
        invariant
            i <= items.len(),
            lines.len() == i,
            forall|j: int|
                0 <= j < i ==> (#[trigger] lines[j])@ == entry_of(items[j]@),
        decreases items.len() - i,
    {
        let description = describe_error(&items[i].issue);
        lines.push(concat3(items[i].field.as_str(), ": ", description.as_str()));
        i += 1;
    }
    assert(lines.deep_view() =~= entries_of(items.deep_view()));
    lines
}

/// Writes all errors in one line under a label, as in
/// `label: [field: description; field: description]`.
pub fn label_errors(label: &str, items: &Vec<FieldIssue>) -> (text: String)
    ensures
        text@ == labelled(label@, items.deep_view()),
{
    let lines = entries(items);
    let list = join(&lines, "; ");
    let mut text = concat3(label, ": [", list.as_str());
    text.append("]");
    text
}

/// Writes the lines of a warning about the errors of what `description`
/// names: a heading, then one line for each error.
pub fn warn_validation_errors(description: &str, items: &Vec<FieldIssue>) -> (lines: Vec<String>)
    ensures
        lines.deep_view() == warning_of(description@, items.deep_view()),
{
    let mut lines: Vec<String> = Vec::new();
    let mut heading = String::from_str(description);
    heading.append(" has validation errors:");
    lines.push(heading);
    let mut i: usize = 0;
    while i < items.len()
        invariant
            i <= items.len(),
            lines.len() == i + 1,
            lines[0]@ == description@ + " has validation errors:"@,
            forall|j: int|
                0 <= j < i ==> (#[trigger] lines[j + 1])@ == "- "@ + entry_of(items[j]@),
        decreases items.len() - i,
    {
        let description = describe_error(&items[i].issue);
        let mut line = concat3("- ", items[i].field.as_str(), ": ");
        line.append(description.as_str());
        proof {
            assert(line@ =~= "- "@ + entry_of(items[i as int]@));
        }
        lines.push(line);
        i += 1;
    }
    proof {
        let wanted = warning_of(description@, items.deep_view());
        assert(lines.deep_view().len() == wanted.len());
        assert forall|k: int| 0 <= k < wanted.len() implies lines.deep_view()[k] == wanted[k] by {
            if k > 0 {
                assert(lines[(k - 1) + 1]@ == "- "@ + entry_of(items[k - 1]@));
            }
        }
        assert(lines.deep_view() =~= wanted);
    }
    lines
}

} // verus!
