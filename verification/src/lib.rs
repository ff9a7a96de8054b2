//! Evaluates the Nix code blocks of a Markdown document and puts each block's
//! result beside it.
//!
//! A fenced code block annotated `nix`, or with a name that ends in `.nix`, is
//! a matched block. `transform::blocks_in` lists the matched blocks of a
//! document. The caller evaluates each one, led by `invoke::Invocation`, which
//! says what to run and reads what the evaluator printed.
//! `render::render_block` makes the text that shows snippet and result, and
//! `transform::rewrite` puts these texts in the places of the blocks.
//!
//! The library runs no process and touches no file: that is the caller's part.

use vstd::prelude::*;

pub mod accumulator;
pub mod config;
pub mod event;
pub mod invoke;
pub mod outcome;
pub mod render;
pub mod tag;
pub mod text;
pub mod transform;

verus! {

/// The preprocessor: it carries no state of its own.
#[derive(Clone, Copy, Debug, PartialEq, Eq)]
pub struct NixEval;

/// The name under which the preprocessor is configured.
pub open spec fn preprocessor_name() -> Seq<char> {
    "nix-eval"@
}

/// The one renderer whose input the preprocessor rewrites.
pub open spec fn supported_renderer() -> Seq<char> {
    "html"@
}

impl NixEval {
    pub fn new() -> (this: NixEval)
        ensures
            this == NixEval,
    {
        NixEval
    }

    /// The name under which the preprocessor is configured.
    pub fn name(&self) -> (name: &'static str)
        ensures
            name@ == preprocessor_name(),
    {
        "nix-eval"
    }

    /// Whether the preprocessor applies to the output of `renderer`.
    pub fn supports_renderer(&self, renderer: &str) -> (supported: bool)
        ensures
            supported == (renderer@ == supported_renderer()),
    {
        text::same_text(renderer, "html")
    }
}

impl Default for NixEval {
    fn default() -> (this: NixEval)
        ensures
            this == NixEval,
    {
        NixEval::new()
    }
}

} // verus!
