//! What an evaluation gave: read from the evaluator's exit and output.

use crate::text::{text_of, trim, trimmed};
use serde_json::Value;
use vstd::prelude::*;

verus! {

#[verifier::external_type_specification]
#[verifier::external_body]
pub struct ExValue(Value);

/// What an evaluation gave.
#[derive(Clone, Debug, PartialEq, Eq)]
pub enum Outcome {
    /// The evaluator failed: what it wrote to its standard error.
    Failure(String),
    /// The evaluator succeeded and printed nothing.
    NoOutput,
    /// The evaluator printed a JSON string: what the string holds.
    String(String),
    /// The evaluator printed another JSON value: the value, pretty-printed.
    Value(String),
    /// The evaluator printed something that is no JSON: what it printed,
    /// trimmed.
    Unparsed(String),
}

/// An `Outcome` over character sequences.
pub enum OutcomeModel {
    Failure(Seq<char>),
    NoOutput,
    String(Seq<char>),
    Value(Seq<char>),
    Unparsed(Seq<char>),
}

impl View for Outcome {
    type V = OutcomeModel;

    open spec fn view(&self) -> OutcomeModel {
        match self {
            Outcome::Failure(text) => OutcomeModel::Failure(text@),
            Outcome::NoOutput => OutcomeModel::NoOutput,
            Outcome::String(text) => OutcomeModel::String(text@),
            Outcome::Value(text) => OutcomeModel::Value(text@),
            Outcome::Unparsed(text) => OutcomeModel::Unparsed(text@),
        }
    }
}

/// The JSON value that a text denotes, if it denotes one.
pub uninterp spec fn json_value(text: Seq<char>) -> Option<Value>;

/// What a JSON value holds, if it is a string.
pub uninterp spec fn json_string(value: Value) -> Option<Seq<char>>;

/// A JSON value pretty-printed, where it can be printed.
pub uninterp spec fn json_pretty(value: Value) -> Option<Seq<char>>;

/// The outcome that printed text stands for: a JSON string, another JSON
/// value, or the text itself where it is no JSON (or cannot be printed again).
pub open spec fn decoded(text: Seq<char>) -> OutcomeModel {
    match json_value(text) {
        Some(value) => match json_string(value) {
            Some(content) => OutcomeModel::String(content),
            None => match json_pretty(value) {
                Some(pretty) => OutcomeModel::Value(pretty),
                None => OutcomeModel::Unparsed(text),
            },
        },
        None => OutcomeModel::Unparsed(text),
    }
}

/// The outcome of an evaluation that ended: a failure with the diagnostics
/// where the evaluator did not succeed, else what its trimmed output stands
/// for.
pub open spec fn outcome_of(success: bool, stdout: Seq<char>, stderr: Seq<char>) -> OutcomeModel {
    if !success {
        OutcomeModel::Failure(stderr)
    } else if trimmed(stdout).len() == 0 {
        OutcomeModel::NoOutput
    } else {
        decoded(trimmed(stdout))
    }
}

/// Calls `serde_json::from_str` for a `Value`, and drops the error. The
/// contract claims that the result depends on the text alone.
#[verifier::external_body]
fn parse_json(text: &str) -> (value: Option<Value>)
    ensures
        value == json_value(text@),
{
    serde_json::from_str(text).ok()
}

/// Calls `serde_json::Value::as_str`, which gives what a string holds and
/// nothing for any other value. The contract claims that the result depends
/// on the value alone.
#[verifier::external_body]
fn string_content(value: &Value) -> (content: Option<String>)
    ensures
        text_of(content) == json_string(*value),
{
    value.as_str().map(str::to_owned)
}

/// Calls `serde_json::to_string_pretty`, and drops the error. The contract
/// claims that the result depends on the value alone.
#[verifier::external_body]
fn pretty_text(value: &Value) -> (text: Option<String>)
    ensures
        text_of(text) == json_pretty(*value),
{
    serde_json::to_string_pretty(value).ok()
}

/// Reads printed text as JSON.
pub fn decode(text: &str) -> (outcome: Outcome)
    ensures
        outcome@ == decoded(text@),
{
    match parse_json(text) {
        Some(value) => match string_content(&value) {
            Some(content) => Outcome::String(content),
            None => match pretty_text(&value) {
                Some(pretty) => Outcome::Value(pretty),
                None => Outcome::Unparsed(text.to_owned()),
            },
        },
        None => Outcome::Unparsed(text.to_owned()),
    }
}

/// The outcome of an evaluation that ended with this exit and these streams.
pub fn classify_output(success: bool, stdout: &str, stderr: &str) -> (outcome: Outcome)
    ensures
        outcome@ == outcome_of(success, stdout@, stderr@),
{
    if !success {
        return Outcome::Failure(stderr.to_owned());
    }
    let printed = trim(stdout);
    if printed.is_empty() {
        Outcome::NoOutput
    } else {
        decode(printed)
    }
}

} // verus!
