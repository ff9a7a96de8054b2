//! The state machine that gathers the source of a matched code block.

use crate::event::{EventKind, KindModel};
use crate::tag::{file_name_of, match_annotation, match_of, TagMatch};
use vstd::prelude::*;
use vstd::string::*;

verus! {

/// A matched code block: the source gathered for it, the name of its scratch
/// file, and whether its annotation named that file.
#[derive(Clone, Debug, PartialEq, Eq)]
pub struct PendingBlock {
    pub source: String,
    pub file_name: String,
    pub named: bool,
}

/// A `PendingBlock` over character sequences.
pub struct BlockModel {
    pub source: Seq<char>,
    pub file_name: Seq<char>,
    pub named: bool,
}

impl View for PendingBlock {
    type V = BlockModel;

    open spec fn view(&self) -> BlockModel {
        BlockModel { source: self.source@, file_name: self.file_name@, named: self.named }
    }
}

/// Where the pass over the events stands: outside every matched block, or
/// inside one.
#[derive(Clone, Debug, PartialEq, Eq)]
pub enum Accumulator {
    Idle,
    Collecting(PendingBlock),
}

/// An `Accumulator` over character sequences.
pub enum StateModel {
    Idle,
    Collecting(BlockModel),
}

impl View for Accumulator {
    type V = StateModel;

    open spec fn view(&self) -> StateModel {
        match self {
            Accumulator::Idle => StateModel::Idle,
            Accumulator::Collecting(block) => StateModel::Collecting(block@),
        }
    }
}

/// What becomes of one event.
#[derive(Clone, Debug, PartialEq, Eq)]
pub enum Action {
    /// The event goes to the output as it is.
    Pass,
    /// The event is dropped.
    Swallow,
    /// The event ends a matched block: the block is evaluated, and its
    /// rendering goes to the output in the event's place.
    Evaluate(PendingBlock),
}

/// An `Action` over character sequences.
pub enum ActionModel {
    Pass,
    Swallow,
    Evaluate(BlockModel),
}

impl View for Action {
    type V = ActionModel;

    open spec fn view(&self) -> ActionModel {
        match self {
            Action::Pass => ActionModel::Pass,
            Action::Swallow => ActionModel::Swallow,
            Action::Evaluate(block) => ActionModel::Evaluate(block@),
        }
    }
}

/// The block that a fence annotated `info` opens, if it opens one: nothing is
/// gathered for it yet.
pub open spec fn opened(info: Seq<char>) -> Option<BlockModel> {
    match file_name_of(info) {
        Some(file_name) => Some(
            BlockModel {
                source: Seq::<char>::empty(),
                file_name,
                named: match_of(info) == TagMatch::NamedFile,
            },
        ),
        None => None,
    }
}

/// Whether an event of this kind opens a matched block when none is open.
pub open spec fn opens_block(kind: KindModel) -> bool {
    kind matches KindModel::FenceStart(info) && opened(info) is Some
}

/// The state after an event of kind `kind` in state `state`, and what becomes
/// of the event.
///
/// Outside a block, the start of a matched block is dropped and opens it;
/// every other event passes. Inside a block, text is gathered and dropped,
/// the end of a code block closes the block and asks for its evaluation, and
/// every other event passes.
pub open spec fn step_spec(state: StateModel, kind: KindModel) -> (StateModel, ActionModel) {
    match state {
        StateModel::Idle => match kind {
            KindModel::FenceStart(info) => match opened(info) {
                Some(block) => (StateModel::Collecting(block), ActionModel::Swallow),
                None => (StateModel::Idle, ActionModel::Pass),
            },
            _ => (StateModel::Idle, ActionModel::Pass),
        },
        StateModel::Collecting(block) => match kind {
            KindModel::Text(text) => (
                StateModel::Collecting(BlockModel { source: block.source + text, ..block }),
                ActionModel::Swallow,
            ),
            KindModel::CodeBlockEnd => (StateModel::Idle, ActionModel::Evaluate(block)),
            _ => (StateModel::Collecting(block), ActionModel::Pass),
        },
    }
}

impl Accumulator {
    /// The state before the first event.
    pub fn new() -> (state: Accumulator)
        ensures
            state@ == StateModel::Idle,
    {
        Accumulator::Idle
    }

    /// Takes one event: gives the next state and what becomes of the event.
    pub fn step(self, kind: &EventKind) -> (next: (Accumulator, Action))
        ensures
            (next.0@, next.1@) == step_spec(self@, kind@),
    {
        match self {
            Accumulator::Idle => match kind {
                EventKind::FenceStart(info) => match match_annotation(info.as_str()) {
                    TagMatch::NamedFile => {
                        let block = PendingBlock {
                            source: String::new(),
                            file_name: info.clone(),
                            named: true,
                        };
                        (Accumulator::Collecting(block), Action::Swallow)
                    },
                    TagMatch::Inline => {
                        let block = PendingBlock {
                            source: String::new(),
                            file_name: "eval.nix".to_owned(),
                            named: false,
                        };
                        (Accumulator::Collecting(block), Action::Swallow)
                    },
                    TagMatch::NotMatched => (Accumulator::Idle, Action::Pass),
                },
                _ => (Accumulator::Idle, Action::Pass),
            },
            Accumulator::Collecting(block) => match kind {
                EventKind::Text(text) => {
                    let mut source = block.source;
                    source.append(text.as_str());
                    let block = PendingBlock {
                        source,
                        file_name: block.file_name,
                        named: block.named,
                    };
                    (Accumulator::Collecting(block), Action::Swallow)
                },
                EventKind::CodeBlockEnd => (Accumulator::Idle, Action::Evaluate(block)),
                _ => (Accumulator::Collecting(block), Action::Pass),
            },
        }
    }
}

} // verus!
