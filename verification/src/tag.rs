//! Which fenced code blocks are evaluated, decided from the fence annotation
//! alone.

use crate::text::{ends_with, same_text};
use vstd::prelude::*;

verus! {

/// What a fence annotation says of its code block.
#[derive(Clone, Copy, Debug, PartialEq, Eq, Structural)]
pub enum TagMatch {
    /// The block is left as it is.
    NotMatched,
    /// The annotation names a file: the block is evaluated under that name.
    NamedFile,
    /// The annotation is the bare language tag: the block is evaluated under
    /// the default name.
    Inline,
}

/// The extension that marks an annotation as a file name.
pub open spec fn file_extension() -> Seq<char> {
    ".nix"@
}

/// The bare language tag.
pub open spec fn language_tag() -> Seq<char> {
    "nix"@
}

/// The scratch file's name for a block matched as inline evaluation.
pub open spec fn default_file_name() -> Seq<char> {
    "eval.nix"@
}

/// What the annotation `info` says of its block.
pub open spec fn match_of(info: Seq<char>) -> TagMatch {
    if file_extension().is_suffix_of(info) {
        TagMatch::NamedFile
    } else if info == language_tag() {
        TagMatch::Inline
    } else {
        TagMatch::NotMatched
    }
}

/// The name of the scratch file for a block annotated `info`, where the block
/// is matched.
pub open spec fn file_name_of(info: Seq<char>) -> Option<Seq<char>> {
    match match_of(info) {
        TagMatch::NamedFile => Some(info),
        TagMatch::Inline => Some(default_file_name()),
        TagMatch::NotMatched => None,
    }
}

/// Decides from a fence annotation whether its block is evaluated.
pub fn match_annotation(info: &str) -> (found: TagMatch)
    ensures
        found == match_of(info@),
{
    if ends_with(info, ".nix") {
        TagMatch::NamedFile
    } else if same_text(info, "nix") {
        TagMatch::Inline
    } else {
        TagMatch::NotMatched
    }
}

/// The name of the scratch file for a block annotated `info`: the annotation
/// itself where it names a file, the default name for the bare tag, and none
/// for a block that is not evaluated.
pub fn scratch_file_name(info: &str) -> (name: Option<String>)
    ensures
        match name {
            Some(name) => file_name_of(info@) == Some(name@),
            None => file_name_of(info@) is None,
        },
{
    match match_annotation(info) {
        TagMatch::NamedFile => Some(info.to_owned()),
        TagMatch::Inline => Some("eval.nix".to_owned()),
        TagMatch::NotMatched => None,
    }
}

} // verus!
