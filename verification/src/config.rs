//! How the evaluator is invoked.

use vstd::prelude::*;

verus! {

/// The evaluator's command and the extra arguments it is given, fixed for a
/// whole run.
#[derive(Clone, Debug, PartialEq, Eq)]
pub struct NixConfig {
    /// The program to run.
    pub eval_command: String,
    /// Extra arguments, separated by single spaces; empty for none.
    pub eval_args: String,
}

/// The evaluator that is run when none is configured.
pub open spec fn default_command() -> Seq<char> {
    "nix-instantiate"@
}

impl NixConfig {
    /// The configuration that the given settings select: a setting that is
    /// absent leaves the default in place.
    pub fn from_settings(eval_command: Option<String>, eval_args: Option<String>) -> (config:
        NixConfig)
        ensures
            config.eval_command@ == (match eval_command {
                Some(command) => command@,
                None => default_command(),
            }),
            config.eval_args@ == (match eval_args {
                Some(args) => args@,
                None => Seq::<char>::empty(),
            }),
    {
        let command = match eval_command {
            Some(command) => command,
            None => "nix-instantiate".to_owned(),
        };
        let args = match eval_args {
            Some(args) => args,
            None => String::new(),
        };
        NixConfig { eval_command: command, eval_args: args }
    }
}

impl Default for NixConfig {
    fn default() -> (config: NixConfig)
        ensures
            config.eval_command@ == default_command(),
            config.eval_args@ == Seq::<char>::empty(),
    {
        NixConfig::from_settings(None, None)
    }
}

} // verus!
