//! The text that stands in the place of an evaluated block.

use crate::accumulator::{BlockModel, PendingBlock};
use crate::outcome::{Outcome, OutcomeModel};
use crate::text::{contains_char, trim, trimmed};
use vstd::prelude::*;
use vstd::string::*;

verus! {

/// What is shown for an evaluation that printed nothing.
pub open spec fn no_output_text() -> Seq<char> {
    "<< no output >>"@
}

/// The content of a string in quotes again: trimmed, and with the quotes on
/// lines of their own where it has more than one line.
pub open spec fn quoted(content: Seq<char>) -> Seq<char> {
    let inner = trimmed(content);
    if inner.contains('\n') {
        "\"\n"@ + inner + "\n\""@
    } else {
        "\""@ + inner + "\""@
    }
}

/// The text shown as the result of an evaluation: the diagnostics of one that
/// failed, else the value.
pub open spec fn result_text(outcome: OutcomeModel) -> Seq<char> {
    match outcome {
        OutcomeModel::Failure(diagnostics) => diagnostics,
        OutcomeModel::NoOutput => no_output_text(),
        OutcomeModel::String(content) => quoted(content),
        OutcomeModel::Value(pretty) => pretty,
        OutcomeModel::Unparsed(printed) => printed,
    }
}

/// The line above a block that names a file: the name in bold. A block of
/// the bare tag has none.
pub open spec fn header(block: BlockModel) -> Seq<char> {
    if block.named {
        "**"@ + block.file_name + "**\n"@
    } else {
        Seq::<char>::empty()
    }
}

/// The snippet, trimmed, in a fence of the language.
pub open spec fn input_fence(source: Seq<char>) -> Seq<char> {
    "\n```nix\n"@ + trimmed(source) + "\n```\n"@
}

/// The result, trimmed, in a fence of the result format.
pub open spec fn output_fence(result: Seq<char>) -> Seq<char> {
    "\n```json\n"@ + trimmed(result) + "\n```\n"@
}

/// The text that stands in the place of a block: the header, then snippet and
/// result inside one container.
pub open spec fn rendered(block: BlockModel, outcome: OutcomeModel) -> Seq<char> {
    "\n"@ + header(block) + "\n<div style='border-left: 2px solid;'>\n"@ + input_fence(
        block.source,
    ) + "\n\n"@ + output_fence(result_text(outcome)) + "\n</div>\n\n"@
}

/// The content of a string in quotes again.
pub fn quote(content: &str) -> (text: String)
    ensures
        text@ == quoted(content@),
{
    let inner = trim(content);
    let mut text = String::new();
    if contains_char(inner, '\n') {
        text.append("\"\n");
        text.append(inner);
        text.append("\n\"");
    } else {
        text.append("\"");
        text.append(inner);
        text.append("\"");
    }
    assert(text@ =~= quoted(content@));
    text
}

/// The text shown as the result of an evaluation.
pub fn render_result(outcome: &Outcome) -> (text: String)
    ensures
        text@ == result_text(outcome@),
{
    match outcome {
        Outcome::Failure(diagnostics) => diagnostics.clone(),
        Outcome::NoOutput => "<< no output >>".to_owned(),
        Outcome::String(content) => quote(content.as_str()),
        Outcome::Value(pretty) => pretty.clone(),
        Outcome::Unparsed(printed) => printed.clone(),
    }
}

/// The text that stands in the place of `block`, evaluated with `outcome`.
pub fn render_block(block: &PendingBlock, outcome: &Outcome) -> (text: String)
    ensures
        text@ == rendered(block@, outcome@),
{
    let result = render_result(outcome);
    let mut text = String::new();
    text.append("\n");
    if block.named {
        text.append("**");
        text.append(block.file_name.as_str());
        text.append("**\n");
    }
    assert(text@ =~= "\n"@ + header(block@));
    text.append("\n<div style='border-left: 2px solid;'>\n");
    text.append("\n```nix\n");
    text.append(trim(block.source.as_str()));
    text.append("\n```\n");
    assert(text@ =~= "\n"@ + header(block@) + "\n<div style='border-left: 2px solid;'>\n"@
        + input_fence(block@.source));
    text.append("\n\n");
    text.append("\n```json\n");
    text.append(trim(result.as_str()));
    text.append("\n```\n");
    text.append("\n</div>\n\n");
    assert(text@ =~= rendered(block@, outcome@));
    text
}

} // verus!
