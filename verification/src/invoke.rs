//! The evaluation of one block: a quick probe, then the evaluation proper.
//! The library says what to run and reads the replies; the caller runs it.

use crate::config::NixConfig;
use crate::outcome::{classify_output, outcome_of, Outcome, OutcomeModel};
use crate::text::{same_text, split, split_on, trim, trimmed, views};
use vstd::prelude::*;
use vstd::string::*;

verus! {

/// What a process left behind: whether it succeeded, and what it wrote.
#[derive(Clone, Debug, PartialEq, Eq)]
pub struct ProcessOutput {
    pub success: bool,
    pub stdout: String,
    pub stderr: String,
}

/// A `ProcessOutput` over character sequences.
pub struct OutputModel {
    pub success: bool,
    pub stdout: Seq<char>,
    pub stderr: Seq<char>,
}

impl View for ProcessOutput {
    type V = OutputModel;

    open spec fn view(&self) -> OutputModel {
        OutputModel { success: self.success, stdout: self.stdout@, stderr: self.stderr@ }
    }
}

/// Where the evaluation of a block stands.
#[derive(Clone, Debug, PartialEq, Eq)]
pub enum Invocation {
    /// The probe is to be run.
    Probing,
    /// The evaluation proper is to be run; `wrap_lambda` says whether the
    /// probe found a function, which must be called to give a value.
    Evaluating { wrap_lambda: bool },
    /// Nothing is left to run. There is no outcome where the evaluator could
    /// not be launched.
    Finished(Option<Outcome>),
}

/// An `Invocation` over character sequences.
pub enum InvocationModel {
    Probing,
    Evaluating { wrap_lambda: bool },
    Finished(Option<OutcomeModel>),
}

impl View for Invocation {
    type V = InvocationModel;

    open spec fn view(&self) -> InvocationModel {
        match self {
            Invocation::Probing => InvocationModel::Probing,
            Invocation::Evaluating { wrap_lambda } => InvocationModel::Evaluating {
                wrap_lambda: *wrap_lambda,
            },
            Invocation::Finished(outcome) => InvocationModel::Finished(
                match outcome {
                    Some(outcome) => Some(outcome@),
                    None => None,
                },
            ),
        }
    }
}

/// What the probe prints for a function.
pub open spec fn lambda_sentinel() -> Seq<char> {
    "<LAMBDA>"@
}

/// Whether the probe's output says that the snippet is a function.
pub open spec fn is_lambda(probe_stdout: Seq<char>) -> bool {
    trimmed(probe_stdout) == lambda_sentinel()
}

/// The arguments of the probe.
pub open spec fn probe_arguments(path: Seq<char>) -> Seq<Seq<char>> {
    seq!["--eval"@, path]
}

/// The configured extra arguments: none where the setting is empty, else its
/// pieces between single spaces.
pub open spec fn extra_arguments(eval_args: Seq<char>) -> Seq<Seq<char>> {
    if eval_args.len() == 0 {
        Seq::empty()
    } else {
        split(eval_args, ' ')
    }
}

/// The expression that calls the function in the file at `path` with an empty
/// set.
pub open spec fn import_expression(path: Seq<char>) -> Seq<char> {
    "import "@ + path + " {}"@
}

/// What the evaluation proper evaluates: the file, or the call of the
/// function in it.
pub open spec fn target_arguments(path: Seq<char>, wrap_lambda: bool) -> Seq<Seq<char>> {
    if wrap_lambda {
        seq!["-E"@, import_expression(path)]
    } else {
        seq![path]
    }
}

/// The arguments of the evaluation proper.
pub open spec fn evaluation_arguments(
    eval_args: Seq<char>,
    path: Seq<char>,
    wrap_lambda: bool,
) -> Seq<Seq<char>> {
    seq!["--json"@, "--eval"@, "--strict"@] + extra_arguments(eval_args) + target_arguments(
        path,
        wrap_lambda,
    )
}

/// The arguments to run the evaluator with next, if anything is left to run.
pub open spec fn request(state: InvocationModel, eval_args: Seq<char>, path: Seq<char>) -> Option<
    Seq<Seq<char>>,
> {
    match state {
        InvocationModel::Probing => Some(probe_arguments(path)),
        InvocationModel::Evaluating { wrap_lambda } => Some(
            evaluation_arguments(eval_args, path, wrap_lambda),
        ),
        InvocationModel::Finished(_) => None,
    }
}

/// The state after a reply: `None` says that the evaluator could not be
/// launched, which ends the evaluation without an outcome. The probe's
/// output decides how the evaluation proper is run, whatever its exit; the
/// output of the evaluation proper gives the outcome.
pub open spec fn advance_spec(state: InvocationModel, reply: Option<OutputModel>) -> InvocationModel {
    match state {
        InvocationModel::Probing => match reply {
            Some(output) => InvocationModel::Evaluating { wrap_lambda: is_lambda(output.stdout) },
            None => InvocationModel::Finished(None),
        },
        InvocationModel::Evaluating { .. } => match reply {
            Some(output) => InvocationModel::Finished(
                Some(outcome_of(output.success, output.stdout, output.stderr)),
            ),
            None => InvocationModel::Finished(None),
        },
        InvocationModel::Finished(outcome) => InvocationModel::Finished(outcome),
    }
}

/// Whether the probe's output says that the snippet is a function.
pub fn probe_found_lambda(probe_stdout: &str) -> (found: bool)
    ensures
        found == is_lambda(probe_stdout@),
{
    same_text(trim(probe_stdout), "<LAMBDA>")
}

/// The arguments of the probe of the file at `path`.
pub fn probe_args(path: &str) -> (args: Vec<String>)
    ensures
        views(args@) == probe_arguments(path@),
{
    let mut args: Vec<String> = Vec::new();
    args.push("--eval".to_owned());
    args.push(path.to_owned());
    assert(views(args@) =~= probe_arguments(path@));
    args
}

/// The arguments of the evaluation proper of the file at `path`.
pub fn evaluation_args(config: &NixConfig, path: &str, wrap_lambda: bool) -> (args: Vec<String>)
    ensures
        views(args@) == evaluation_arguments(config.eval_args@, path@, wrap_lambda),
{
    let mut args: Vec<String> = Vec::new();
    args.push("--json".to_owned());
    args.push("--eval".to_owned());
    args.push("--strict".to_owned());
    assert(views(args@) =~= seq!["--json"@, "--eval"@, "--strict"@]);
    if !config.eval_args.as_str().is_empty() {
        let mut extra = split_on(config.eval_args.as_str(), ' ');
        let ghost before = args@;
        let ghost pieces = extra@;
        args.append(&mut extra);
        assert(views(before + pieces) =~= views(before) + views(pieces));
    }
    assert(views(args@) == seq!["--json"@, "--eval"@, "--strict"@] + extra_arguments(
        config.eval_args@,
    ));
    let ghost flags = args@;
    if wrap_lambda {
        let mut expression = "import ".to_owned();
        expression.append(path);
        expression.append(" {}");
        args.push("-E".to_owned());
        args.push(expression);
    } else {
        args.push(path.to_owned());
    }
    assert(views(args@) =~= views(flags) + target_arguments(path@, wrap_lambda));
    args
}

impl Invocation {
    /// The state before anything is run.
    pub fn new() -> (state: Invocation)
        ensures
            state@ == InvocationModel::Probing,
    {
        Invocation::Probing
    }

    /// The arguments to run the evaluator with next, on the scratch file at
    /// `path`; `None` when nothing is left to run.
    pub fn arguments(&self, config: &NixConfig, path: &str) -> (args: Option<Vec<String>>)
        ensures
            match args {
                Some(args) => request(self@, config.eval_args@, path@) == Some(views(args@)),
                None => request(self@, config.eval_args@, path@) is None,
            },
    {
        match self {
            Invocation::Probing => Some(probe_args(path)),
            Invocation::Evaluating { wrap_lambda } => Some(
                evaluation_args(config, path, *wrap_lambda),
            ),
            Invocation::Finished(_) => None,
        }
    }

    /// Takes the reply to the last request: what the process left behind, or
    /// `None` where it could not be launched.
    pub fn advance(self, reply: Option<ProcessOutput>) -> (next: Invocation)
        ensures
            next@ == advance_spec(self@, match reply {
                Some(output) => Some(output@),
                None => None,
            }),
    {
        match self {
            Invocation::Probing => match reply {
                Some(output) => Invocation::Evaluating {
                    wrap_lambda: probe_found_lambda(output.stdout.as_str()),
                },
                None => Invocation::Finished(None),
            },
            Invocation::Evaluating { .. } => match reply {
                Some(output) => Invocation::Finished(
                    Some(
                        classify_output(
                            output.success,
                            output.stdout.as_str(),
                            output.stderr.as_str(),
                        ),
                    ),
                ),
                None => Invocation::Finished(None),
            },
            Invocation::Finished(outcome) => Invocation::Finished(outcome),
        }
    }

    /// The outcome of an evaluation that has ended; none before that, and
    /// none where the evaluator could not be launched.
    pub fn outcome(self) -> (outcome: Option<Outcome>)
        ensures
            match outcome {
                Some(outcome) => self@ == InvocationModel::Finished(Some(outcome@)),
                None => !(self@ matches InvocationModel::Finished(Some(_))),
            },
    {
        match self {
            Invocation::Finished(outcome) => outcome,
            _ => None,
        }
    }
}

/// An evaluation ends after two replies at most: after the first where the
/// probe could not be launched, else after the second.
pub proof fn lemma_two_replies(first: Option<OutputModel>, second: Option<OutputModel>)
    ensures
        advance_spec(advance_spec(InvocationModel::Probing, first), second) is Finished,
        first is None ==> advance_spec(InvocationModel::Probing, first)
            == InvocationModel::Finished(None),
        first is Some && second is None ==> advance_spec(
            advance_spec(InvocationModel::Probing, first),
            second,
        ) == InvocationModel::Finished(None),
{
}

} // verus!
