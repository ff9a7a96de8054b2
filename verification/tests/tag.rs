use mdbook_nix_eval::tag::{match_annotation, scratch_file_name, TagMatch};

#[test]
fn bare_tag_is_inline_evaluation() {
    assert_eq!(match_annotation("nix"), TagMatch::Inline);
    assert_eq!(scratch_file_name("nix"), Some("eval.nix".to_string()));
}

#[test]
fn annotation_with_the_extension_names_the_file() {
    assert_eq!(match_annotation("foo.nix"), TagMatch::NamedFile);
    assert_eq!(scratch_file_name("foo.nix"), Some("foo.nix".to_string()));
    assert_eq!(match_annotation("dir/default.nix"), TagMatch::NamedFile);
    assert_eq!(scratch_file_name("dir/default.nix"), Some("dir/default.nix".to_string()));
    assert_eq!(match_annotation(".nix"), TagMatch::NamedFile);
    assert_eq!(scratch_file_name(".nix"), Some(".nix".to_string()));
    assert_eq!(match_annotation("nix.nix"), TagMatch::NamedFile);
}

#[test]
fn other_annotations_are_not_matched() {
    for info in [
        "", "rust", "json", "Nix", "NIX", "nix ", " nix", "nix,ignore", "nix-shell", "unix",
        "nixos", "foo.nix ", "foo.nix,ignore", "foo.NIX", "foo.nixx", "nix.txt", "xnix",
    ] {
        assert_eq!(match_annotation(info), TagMatch::NotMatched, "{:?}", info);
        assert_eq!(scratch_file_name(info), None, "{:?}", info);
    }
}
