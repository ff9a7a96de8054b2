use mdbook_nix_eval::accumulator::PendingBlock;
use mdbook_nix_eval::outcome::{classify_output, Outcome};
use mdbook_nix_eval::render::{quote, render_block, render_result};

fn block(source: &str, file_name: &str, named: bool) -> PendingBlock {
    PendingBlock { source: source.to_string(), file_name: file_name.to_string(), named }
}

#[test]
fn quote_puts_one_line_between_quotes() {
    assert_eq!(quote("hello"), "\"hello\"");
    assert_eq!(quote("  hello \n"), "\"hello\"");
    assert_eq!(quote(""), "\"\"");
    assert_eq!(quote("say \"hi\""), "\"say \"hi\"\"");
}

#[test]
fn quote_puts_the_quotes_of_several_lines_on_their_own_lines() {
    assert_eq!(quote("a\nb"), "\"\na\nb\n\"");
    assert_eq!(quote("\n a\n\nb \n"), "\"\na\n\nb\n\"");
}

#[test]
fn result_text_of_each_outcome() {
    assert_eq!(render_result(&Outcome::Failure("error: x\n".to_string())), "error: x\n");
    assert_eq!(render_result(&Outcome::NoOutput), "<< no output >>");
    assert_eq!(render_result(&Outcome::String("hi".to_string())), "\"hi\"");
    assert_eq!(render_result(&Outcome::Value("[\n  1\n]".to_string())), "[\n  1\n]");
    assert_eq!(render_result(&Outcome::Unparsed("<LAMBDA>".to_string())), "<LAMBDA>");
}

#[test]
fn evaluator_output_hello_renders_quoted() {
    let outcome = classify_output(true, "\"hello\"", "");
    assert_eq!(render_result(&outcome), "\"hello\"");
    let text = render_block(&block("\"hello\"", "eval.nix", false), &outcome);
    assert!(text.contains("\n```json\n\"hello\"\n```\n"));
}

#[test]
fn evaluator_output_42_renders_as_42() {
    let outcome = classify_output(true, "42", "");
    assert_eq!(render_result(&outcome), "42");
    let text = render_block(&block("40 + 2", "eval.nix", false), &outcome);
    assert!(text.contains("\n```json\n42\n```\n"));
}

#[test]
fn named_file_renders_with_its_name_as_header() {
    let text = render_block(&block("  1 + 1\n", "foo.nix", true), &Outcome::Value("2".to_string()));
    assert_eq!(
        text,
        "\n**foo.nix**\n\n<div style='border-left: 2px solid;'>\n\n```nix\n1 + 1\n```\n\n\n\n```json\n2\n```\n\n</div>\n\n"
    );
}

#[test]
fn bare_tag_renders_without_header() {
    let text = render_block(&block("1 + 1\n", "eval.nix", false), &Outcome::Value("2".to_string()));
    assert_eq!(
        text,
        "\n\n<div style='border-left: 2px solid;'>\n\n```nix\n1 + 1\n```\n\n\n\n```json\n2\n```\n\n</div>\n\n"
    );
    assert!(!text.contains("eval.nix"));
    assert!(!text.contains("**"));
}

#[test]
fn failure_renders_the_trimmed_diagnostics_beside_the_trimmed_source() {
    let outcome = classify_output(false, "", "\nerror: undefined variable 'x'\n\n");
    let text = render_block(&block("\n  x + 1  \n\n", "eval.nix", false), &outcome);
    assert!(text.contains("\n```json\nerror: undefined variable 'x'\n```\n"));
    assert!(text.contains("\n```nix\nx + 1\n```\n"));
    assert_eq!(
        text,
        "\n\n<div style='border-left: 2px solid;'>\n\n```nix\nx + 1\n```\n\n\n\n```json\nerror: undefined variable 'x'\n```\n\n</div>\n\n"
    );
}

#[test]
fn no_output_renders_the_placeholder() {
    let text = render_block(&block("import ./x.nix", "a.nix", true), &Outcome::NoOutput);
    assert!(text.starts_with("\n**a.nix**\n\n<div"));
    assert!(text.contains("\n```json\n<< no output >>\n```\n"));
}

#[test]
fn multi_line_string_renders_between_quote_lines() {
    let outcome = classify_output(true, "\"a\\nb\\n\"", "");
    let text = render_block(&block("''\n  a\n  b\n''", "eval.nix", false), &outcome);
    assert!(text.contains("\n```json\n\"\na\nb\n\"\n```\n"));
    assert!(text.contains("\n```nix\n''\n  a\n  b\n''\n```\n"));
}

#[test]
fn empty_source_and_result_render_empty_fences() {
    let text = render_block(&block(" \n", "e.nix", true), &Outcome::Failure(" ".to_string()));
    assert_eq!(
        text,
        "\n**e.nix**\n\n<div style='border-left: 2px solid;'>\n\n```nix\n\n```\n\n\n\n```json\n\n```\n\n</div>\n\n"
    );
}
