//! The pass over a document's events: which events stay, which go, and where
//! the rendering of an evaluated block comes in.

use crate::accumulator::{
    opens_block, step_spec, Accumulator, Action, ActionModel, BlockModel, PendingBlock,
    StateModel,
};
use crate::event::{
    classify, event_kind, kind_views, kinds_of, markdown_events, markdown_text, nesting,
    parse_document, serializable, text_event, text_event_of, write_document, EventKind,
    KindModel,
};
use crate::text::text_of;
use pulldown_cmark::Event;
use vstd::prelude::*;

verus! {

/// The state after the events of these kinds, starting outside every block.
pub open spec fn state_after(kinds: Seq<KindModel>) -> StateModel
    decreases kinds.len(),
{
    if kinds.len() == 0 {
        StateModel::Idle
    } else {
        step_spec(state_after(kinds.drop_last()), kinds.last()).0
    }
}

/// What becomes of each event of a document whose events have these kinds.
pub open spec fn plan(kinds: Seq<KindModel>) -> Seq<ActionModel>
    decreases kinds.len(),
{
    if kinds.len() == 0 {
        Seq::empty()
    } else {
        plan(kinds.drop_last()).push(step_spec(state_after(kinds.drop_last()), kinds.last()).1)
    }
}

/// A plan says what becomes of each event.
pub proof fn lemma_plan_len(kinds: Seq<KindModel>)
    ensures
        plan(kinds).len() == kinds.len(),
    decreases kinds.len(),
{
    if kinds.len() > 0 {
        lemma_plan_len(kinds.drop_last());
    }
}

/// How many blocks a plan evaluates.
pub open spec fn evaluations(plan: Seq<ActionModel>) -> nat
    decreases plan.len(),
{
    if plan.len() == 0 {
        0
    } else if plan.last() is Evaluate {
        evaluations(plan.drop_last()) + 1
    } else {
        evaluations(plan.drop_last())
    }
}

/// The blocks that a plan evaluates, in order.
pub open spec fn blocks_of(plan: Seq<ActionModel>) -> Seq<BlockModel>
    decreases plan.len(),
{
    if plan.len() == 0 {
        Seq::empty()
    } else {
        match plan.last() {
            ActionModel::Evaluate(block) => blocks_of(plan.drop_last()).push(block),
            _ => blocks_of(plan.drop_last()),
        }
    }
}

/// Where an event of the output comes from.
pub enum Origin {
    /// The input event at this position, passed through.
    Event(int),
    /// The rendering of a block: `end` is the position of the input event
    /// that ended the block, `number` counts the blocks before it.
    Block { end: int, number: int },
}

impl Origin {
    /// The position of the input event that put this event into the output.
    pub open spec fn position(self) -> int {
        match self {
            Origin::Event(at) => at,
            Origin::Block { end, .. } => end,
        }
    }
}

/// Where each event of the output comes from: every event that passes, and,
/// in the place of the event that ends a block, the block's rendering where
/// one was supplied. `supplied[k]` says whether block `k` has one.
pub open spec fn origins(plan: Seq<ActionModel>, supplied: Seq<bool>) -> Seq<Origin>
    decreases plan.len(),
{
    if plan.len() == 0 {
        Seq::empty()
    } else {
        let before = origins(plan.drop_last(), supplied);
        let at = plan.len() - 1;
        match plan.last() {
            ActionModel::Pass => before.push(Origin::Event(at)),
            ActionModel::Swallow => before,
            ActionModel::Evaluate(_) => {
                let number = evaluations(plan.drop_last()) as int;
                if number < supplied.len() && supplied[number] {
                    before.push(Origin::Block { end: at, number })
                } else {
                    before
                }
            },
        }
    }
}

/// Which of the replacements are there.
pub open spec fn which_supplied<T>(replacements: Seq<Option<T>>) -> Seq<bool> {
    replacements.map_values(|replacement: Option<T>| replacement is Some)
}

/// The output event of an origin.
pub open spec fn resolve<T>(items: Seq<T>, replacements: Seq<Option<T>>, origin: Origin) -> T {
    match origin {
        Origin::Event(at) => items[at],
        Origin::Block { number, .. } => replacements[number]->0,
    }
}

/// The output for `items` under `plan`: `replacements[k]` stands in the place
/// of the event that ends block `k`, and nothing does where it is `None` or
/// missing.
pub open spec fn assemble<T>(
    items: Seq<T>,
    plan: Seq<ActionModel>,
    replacements: Seq<Option<T>>,
) -> Seq<T> {
    origins(plan, which_supplied(replacements)).map_values(
        |origin: Origin| resolve(items, replacements, origin),
    )
}

/// The text event of each rendering that is there.
pub open spec fn replacement_events(texts: Seq<Option<Seq<char>>>) -> Seq<Option<Event<'static>>> {
    texts.map_values(
        |text: Option<Seq<char>>|
            match text {
                Some(text) => Some(text_event_of(text)),
                None => None,
            },
    )
}

/// The events of the output, for the events of a document and the rendering
/// of each of its blocks.
pub open spec fn transformed(events: Seq<Event<'_>>, texts: Seq<Option<Seq<char>>>) -> Seq<
    Event<'_>,
> {
    assemble(events, plan(kinds_of(events)), replacement_events(texts))
}

/// The views of a sequence of actions.
pub open spec fn action_views(actions: Seq<Action>) -> Seq<ActionModel> {
    actions.map_values(|action: Action| action@)
}

/// The views of a sequence of blocks.
pub open spec fn block_views(blocks: Seq<PendingBlock>) -> Seq<BlockModel> {
    blocks.map_values(|block: PendingBlock| block@)
}

/// The character sequences of renderings that may be absent.
pub open spec fn text_views(texts: Seq<Option<String>>) -> Seq<Option<Seq<char>>> {
    texts.map_values(|text: Option<String>| text_of(text))
}

/// The kinds of the events of the output, for the kinds of the events of a
/// document and the rendering of each of its blocks: a rendering is text.
pub open spec fn output_kinds(kinds: Seq<KindModel>, texts: Seq<Option<Seq<char>>>) -> Seq<
    KindModel,
> {
    assemble(kinds, plan(kinds), replacement_kinds(texts))
}

/// The kind of the text event of each rendering that is there.
pub open spec fn replacement_kinds(texts: Seq<Option<Seq<char>>>) -> Seq<Option<KindModel>> {
    texts.map_values(
        |text: Option<Seq<char>>|
            match text {
                Some(text) => Some(KindModel::Text(text)),
                None => None,
            },
    )
}

/// How many events a plan passes.
pub open spec fn passes(plan: Seq<ActionModel>) -> nat
    decreases plan.len(),
{
    if plan.len() == 0 {
        0
    } else if plan.last() is Pass {
        passes(plan.drop_last()) + 1
    } else {
        passes(plan.drop_last())
    }
}

/// How many of these origins are renderings of blocks.
pub open spec fn renderings(origins: Seq<Origin>) -> nat
    decreases origins.len(),
{
    if origins.len() == 0 {
        0
    } else if origins.last() is Block {
        renderings(origins.drop_last()) + 1
    } else {
        renderings(origins.drop_last())
    }
}

/// Whether `origin` is right for `plan`: an event that the plan passes, or
/// the rendering, which was supplied, of the block that ends where it says
/// and has the number it says.
pub open spec fn origin_valid(plan: Seq<ActionModel>, supplied: Seq<bool>, origin: Origin) -> bool {
    match origin {
        Origin::Event(at) => 0 <= at < plan.len() && plan[at] is Pass,
        Origin::Block { end, number } => {
            &&& 0 <= end < plan.len()
            &&& plan[end] is Evaluate
            &&& number == evaluations(plan.take(end))
            &&& 0 <= number < supplied.len()
            &&& supplied[number]
        },
    }
}

/// Whether each of the first `count` blocks has a rendering.
pub open spec fn all_supplied(supplied: Seq<bool>, count: nat) -> bool {
    count <= supplied.len() && forall|k: int| 0 <= k < count ==> supplied[k]
}

/// Whether a matched block starts inside a matched block that is still open.
pub open spec fn nested(kinds: Seq<KindModel>) -> bool {
    exists|i: int|
        0 <= i < kinds.len() && #[trigger] state_after(kinds.take(i)) is Collecting
            && opens_block(kinds[i])
}

/// The plan for the first `n` events is the first `n` entries of the plan.
pub proof fn lemma_plan_prefix(kinds: Seq<KindModel>, n: int)
    requires
        0 <= n <= kinds.len(),
    ensures
        plan(kinds.take(n)) == plan(kinds).take(n),
    decreases kinds.len(),
{
    lemma_plan_len(kinds);
    if n == kinds.len() {
        assert(kinds.take(n) =~= kinds);
        assert(plan(kinds).take(n) =~= plan(kinds));
    } else {
        let shorter = kinds.drop_last();
        lemma_plan_prefix(shorter, n);
        lemma_plan_len(shorter);
        assert(shorter.take(n) =~= kinds.take(n));
        assert(plan(kinds).take(n) =~= plan(shorter).take(n));
    }
}

/// What becomes of the event at `i` is the step from the state after the
/// events before it.
pub proof fn lemma_plan_at(kinds: Seq<KindModel>, i: int)
    requires
        0 <= i < kinds.len(),
    ensures
        plan(kinds).len() == kinds.len(),
        plan(kinds)[i] == step_spec(state_after(kinds.take(i)), kinds[i]).1,
        state_after(kinds.take(i + 1)) == step_spec(state_after(kinds.take(i)), kinds[i]).0,
{
    lemma_plan_len(kinds);
    lemma_plan_prefix(kinds, i + 1);
    let upto = kinds.take(i + 1);
    assert(upto.drop_last() =~= kinds.take(i));
    assert(upto.last() == kinds[i]);
    assert(plan(upto).last() == plan(kinds).take(i + 1)[i]);
}

/// From a place outside every block, events that open no block all pass, and
/// the pass is still outside every block after them: a code block whose
/// annotation is not matched stays as it is, fences and text.
pub proof fn lemma_unmatched_events_pass(kinds: Seq<KindModel>, from: int, to: int)
    requires
        0 <= from <= to <= kinds.len(),
        state_after(kinds.take(from)) is Idle,
        forall|i: int| from <= i < to ==> !opens_block(#[trigger] kinds[i]),
    ensures
        state_after(kinds.take(to)) is Idle,
        forall|i: int| from <= i < to ==> #[trigger] plan(kinds)[i] is Pass,
    decreases to - from,
{
    if from < to {
        lemma_unmatched_events_pass(kinds, from, to - 1);
        lemma_plan_at(kinds, to - 1);
        assert(!opens_block(kinds[to - 1]));
    }
}

/// Under a plan that passes every event, the output comes from the events,
/// one for one.
pub proof fn lemma_all_pass(plan: Seq<ActionModel>, supplied: Seq<bool>)
    requires
        forall|i: int| 0 <= i < plan.len() ==> #[trigger] plan[i] is Pass,
    ensures
        origins(plan, supplied) == Seq::new(plan.len(), |i: int| Origin::Event(i)),
        evaluations(plan) == 0,
        blocks_of(plan) == Seq::<BlockModel>::empty(),
    decreases plan.len(),
{
    if plan.len() > 0 {
        let shorter = plan.drop_last();
        assert forall|i: int| 0 <= i < shorter.len() implies #[trigger] shorter[i] is Pass by {
            assert(shorter[i] == plan[i]);
        }
        lemma_all_pass(shorter, supplied);
        assert(plan.last() == plan[plan.len() - 1]);
        assert(origins(plan, supplied) =~= Seq::new(plan.len(), |i: int| Origin::Event(i)));
    } else {
        assert(origins(plan, supplied) =~= Seq::new(plan.len(), |i: int| Origin::Event(i)));
    }
}

/// Pass-through identity: a document in which no fence annotation is matched
/// has no block to evaluate, and its output is its input, event for event,
/// whatever renderings are offered.
pub proof fn lemma_pass_through(events: Seq<Event<'_>>, texts: Seq<Option<Seq<char>>>)
    requires
        forall|i: int| 0 <= i < events.len() ==> !opens_block(event_kind(#[trigger] events[i])),
    ensures
        blocks_of(plan(kinds_of(events))) == Seq::<BlockModel>::empty(),
        transformed(events, texts) == events,
{
    let kinds = kinds_of(events);
    assert(kinds.take(0) =~= Seq::<KindModel>::empty());
    assert forall|i: int| 0 <= i < kinds.len() implies !opens_block(#[trigger] kinds[i]) by {
        assert(kinds[i] == event_kind(events[i]));
    }
    lemma_unmatched_events_pass(kinds, 0, kinds.len() as int);
    lemma_plan_len(kinds);
    lemma_all_pass(plan(kinds), which_supplied(replacement_events(texts)));
    assert(transformed(events, texts) =~= events);
}

/// Every event of the output comes from the input event at one position, and
/// these positions rise along the output: an event that the plan passes
/// stands in the output as it is, the rendering that was supplied for a block
/// stands where the block ended, and nothing else is there. So the events
/// outside the matched blocks keep their order, and each block has one
/// rendering or none.
pub proof fn lemma_origins(plan: Seq<ActionModel>, supplied: Seq<bool>)
    ensures
        forall|p: int|
            0 <= p < origins(plan, supplied).len() ==> origin_valid(
                plan,
                supplied,
                #[trigger] origins(plan, supplied)[p],
            ),
        forall|p: int, q: int|
            0 <= p < q < origins(plan, supplied).len() ==> (#[trigger] origins(
                plan,
                supplied,
            )[p]).position() < (#[trigger] origins(plan, supplied)[q]).position(),
        forall|i: int|
            0 <= i < plan.len() && #[trigger] plan[i] is Pass ==> origins(plan, supplied).contains(
                Origin::Event(i),
            ),
        forall|i: int|
            0 <= i < plan.len() && #[trigger] plan[i] is Evaluate && evaluations(plan.take(i))
                < supplied.len() && supplied[evaluations(plan.take(i)) as int] ==> origins(
                plan,
                supplied,
            ).contains(Origin::Block { end: i, number: evaluations(plan.take(i)) as int }),
    decreases plan.len(),
{
    let all = origins(plan, supplied);
    if plan.len() > 0 {
        let shorter = plan.drop_last();
        let before = origins(shorter, supplied);
        let at = plan.len() - 1;
        lemma_origins(shorter, supplied);
        assert(plan.take(at) =~= shorter);
        assert forall|p: int| 0 <= p < before.len() implies origin_valid(
            plan,
            supplied,
            #[trigger] before[p],
        ) && before[p].position() < at by {
            assert(origin_valid(shorter, supplied, before[p]));
            match before[p] {
                Origin::Event(i) => {
                    assert(shorter[i] == plan[i]);
                },
                Origin::Block { end, number } => {
                    assert(shorter[end] == plan[end]);
                    assert(shorter.take(end) =~= plan.take(end));
                },
            }
        }
        assert forall|p: int| 0 <= p < all.len() implies origin_valid(
            plan,
            supplied,
            #[trigger] all[p],
        ) by {
            if p < before.len() {
                assert(all[p] == before[p]);
            }
        }
        assert forall|p: int, q: int| 0 <= p < q < all.len() implies (#[trigger] all[p]).position()
            < (#[trigger] all[q]).position() by {
            assert(all[p] == before[p]);
            if q < before.len() {
                assert(all[q] == before[q]);
            }
        }
        assert forall|i: int| 0 <= i < plan.len() && #[trigger] plan[i] is Pass implies all.contains(
            Origin::Event(i),
        ) by {
            if i < at {
                assert(shorter[i] == plan[i]);
                let p = choose|p: int| 0 <= p < before.len() && before[p] == Origin::Event(i);
                assert(all[p] == Origin::Event(i));
            } else {
                assert(all[all.len() - 1] == Origin::Event(i));
            }
        }
        assert forall|i: int|
            0 <= i < plan.len() && #[trigger] plan[i] is Evaluate && evaluations(plan.take(i))
                < supplied.len() && supplied[evaluations(
                plan.take(i),
            ) as int] implies all.contains(
            Origin::Block { end: i, number: evaluations(plan.take(i)) as int },
        ) by {
            let wanted = Origin::Block { end: i, number: evaluations(plan.take(i)) as int };
            if i < at {
                assert(shorter[i] == plan[i]);
                assert(shorter.take(i) =~= plan.take(i));
                let p = choose|p: int| 0 <= p < before.len() && before[p] == wanted;
                assert(all[p] == wanted);
            } else {
                assert(all[all.len() - 1] == wanted);
            }
        }
    }
}

/// What the output holds, and in which order: each of its events is an input
/// event that the plan passes, unchanged, or the text event of the rendering
/// supplied for a block, in the place of the event that ended the block; and
/// the input positions that the events of the output come from rise along
/// the output. So every event outside the matched blocks is kept, in its
/// order, and each block gives way to one event at most.
pub proof fn lemma_output_order(events: Seq<Event<'_>>, texts: Seq<Option<Seq<char>>>)
    ensures
        ({
            let actions = plan(kinds_of(events));
            let from = origins(actions, which_supplied(replacement_events(texts)));
            let out = transformed(events, texts);
            &&& actions.len() == events.len()
            &&& out.len() == from.len()
            &&& forall|p: int|
                0 <= p < out.len() ==> match #[trigger] from[p] {
                    Origin::Event(at) => {
                        &&& 0 <= at < events.len()
                        &&& actions[at] is Pass
                        &&& out[p] == events[at]
                    },
                    Origin::Block { end, number } => {
                        &&& 0 <= end < events.len()
                        &&& actions[end] is Evaluate
                        &&& number == evaluations(actions.take(end))
                        &&& 0 <= number < texts.len()
                        &&& texts[number] is Some
                        &&& out[p] == text_event_of(texts[number]->0)
                    },
                }
            &&& forall|p: int, q: int|
                0 <= p < q < out.len() ==> (#[trigger] from[p]).position() < (
                #[trigger] from[q]).position()
        }),
{
    let actions = plan(kinds_of(events));
    let replacements = replacement_events(texts);
    let from = origins(actions, which_supplied(replacements));
    lemma_plan_len(kinds_of(events));
    lemma_origins(actions, which_supplied(replacements));
    assert forall|p: int| 0 <= p < from.len() implies match #[trigger] from[p] {
        Origin::Event(at) => 0 <= at < events.len() && actions[at] is Pass,
        Origin::Block { end, number } => {
            &&& 0 <= end < events.len()
            &&& actions[end] is Evaluate
            &&& number == evaluations(actions.take(end))
            &&& 0 <= number < texts.len()
            &&& texts[number] is Some
            &&& replacements[number] == Some(text_event_of(texts[number]->0))
        },
    } by {
        assert(origin_valid(actions, which_supplied(replacements), from[p]));
    }
}

/// The output has one event for each event that passes and one for each
/// rendering. A plan asks for as many renderings as it has matched blocks that
/// end; where one is supplied for each of them, the output holds as many
/// renderings as there are such blocks.
pub proof fn lemma_rendering_count(plan: Seq<ActionModel>, supplied: Seq<bool>)
    ensures
        blocks_of(plan).len() == evaluations(plan),
        origins(plan, supplied).len() == passes(plan) + renderings(origins(plan, supplied)),
        renderings(origins(plan, supplied)) <= evaluations(plan),
        all_supplied(supplied, evaluations(plan)) ==> renderings(origins(plan, supplied))
            == evaluations(plan),
    decreases plan.len(),
{
    if plan.len() > 0 {
        let shorter = plan.drop_last();
        let before = origins(shorter, supplied);
        lemma_rendering_count(shorter, supplied);
        let all = origins(plan, supplied);
        if all.len() > before.len() {
            assert(all.drop_last() =~= before);
        }
        if all_supplied(supplied, evaluations(plan)) {
            assert(all_supplied(supplied, evaluations(shorter)));
            if plan.last() is Evaluate {
                assert(supplied[evaluations(shorter) as int]);
            }
        }
    }
}

/// The blocks are numbered in the order in which they end: the block whose
/// end stands at `end` is the one that `blocks_of` lists under the number of
/// blocks that ended before it. So the rendering supplied under a block's
/// number comes to stand where that block ended.
pub proof fn lemma_block_numbers(plan: Seq<ActionModel>, end: int)
    requires
        0 <= end < plan.len(),
        plan[end] is Evaluate,
    ensures
        evaluations(plan.take(end)) < blocks_of(plan).len(),
        plan[end] == ActionModel::Evaluate(blocks_of(plan)[evaluations(plan.take(end)) as int]),
    decreases plan.len(),
{
    let shorter = plan.drop_last();
    let none = Seq::<bool>::empty();
    lemma_rendering_count(plan, none);
    lemma_rendering_count(shorter, none);
    if end == plan.len() - 1 {
        assert(plan.take(end) =~= shorter);
    } else {
        lemma_block_numbers(shorter, end);
        assert(shorter.take(end) =~= plan.take(end));
        assert(shorter[end] == plan[end]);
    }
}

/// A matched block that starts inside an open one aside, the output holds no
/// start of a matched block: the kinds of its events open no block.
pub proof fn lemma_output_opens_nothing(kinds: Seq<KindModel>, texts: Seq<Option<Seq<char>>>)
    requires
        !nested(kinds),
    ensures
        forall|p: int|
            0 <= p < output_kinds(kinds, texts).len() ==> !opens_block(
                #[trigger] output_kinds(kinds, texts)[p],
            ),
{
    let replacements = replacement_kinds(texts);
    let from = origins(plan(kinds), which_supplied(replacements));
    let out = output_kinds(kinds, texts);
    lemma_origins(plan(kinds), which_supplied(replacements));
    lemma_plan_len(kinds);
    assert forall|p: int| 0 <= p < out.len() implies !opens_block(#[trigger] out[p]) by {
        assert(out[p] == resolve(kinds, replacements, from[p]));
        assert(origin_valid(plan(kinds), which_supplied(replacements), from[p]));
        match from[p] {
            Origin::Event(i) => {
                lemma_plan_at(kinds, i);
                if state_after(kinds.take(i)) is Collecting {
                    assert(!opens_block(kinds[i]));
                }
            },
            Origin::Block { end, number } => {
                assert(replacements[number] is Some);
            },
        }
    }
}

/// A second pass changes nothing. Let `once` be the output for `events`, with
/// the kinds that `substitute` gives its output. Then `once` has no block to
/// evaluate, and its output is `once` again, whatever renderings are
/// offered. Left out are the documents in which a matched block starts inside
/// an open one: such a start passes, and a second pass would open a block
/// there.
pub proof fn lemma_second_pass(
    events: Seq<Event<'_>>,
    texts: Seq<Option<Seq<char>>>,
    once: Seq<Event<'_>>,
    again: Seq<Option<Seq<char>>>,
)
    requires
        once == transformed(events, texts),
        kinds_of(once) == output_kinds(kinds_of(events), texts),
        !nested(kinds_of(events)),
    ensures
        blocks_of(plan(kinds_of(once))) == Seq::<BlockModel>::empty(),
        transformed(once, again) == once,
{
    lemma_output_opens_nothing(kinds_of(events), texts);
    assert forall|p: int| 0 <= p < once.len() implies !opens_block(
        event_kind(#[trigger] once[p]),
    ) by {
        assert(kinds_of(once)[p] == event_kind(once[p]));
    }
    lemma_pass_through(once, again);
}

/// The output closes what the input closes: the nesting of headings, links
/// and images at the end of the output is that at the end of the input. So
/// the output of a document that can be written back can be written back.
pub proof fn lemma_output_nesting(kinds: Seq<KindModel>, texts: Seq<Option<Seq<char>>>)
    ensures
        nesting(output_kinds(kinds, texts)) == nesting(kinds),
        serializable(kinds) == serializable(output_kinds(kinds, texts)),
    decreases kinds.len(),
{
    let replacements = replacement_kinds(texts);
    let present = which_supplied(replacements);
    if kinds.len() == 0 {
        assert(output_kinds(kinds, texts) =~= Seq::<KindModel>::empty());
    } else {
        let shorter = kinds.drop_last();
        let before = origins(plan(shorter), present);
        let all = origins(plan(kinds), present);
        let out_before = output_kinds(shorter, texts);
        let out = output_kinds(kinds, texts);
        lemma_output_nesting(shorter, texts);
        lemma_origins(plan(shorter), present);
        lemma_plan_len(shorter);
        assert(plan(kinds).drop_last() =~= plan(shorter));
        assert forall|p: int| 0 <= p < before.len() implies resolve(
            kinds,
            replacements,
            #[trigger] before[p],
        ) == resolve(shorter, replacements, before[p]) by {
            assert(origin_valid(plan(shorter), present, before[p]));
        }
        if all.len() > before.len() {
            assert(out.drop_last() =~= out_before);
            match all.last() {
                Origin::Event(at) => {},
                Origin::Block { number, .. } => {
                    assert(replacements[number] is Some);
                },
            }
        } else {
            assert(out =~= out_before);
        }
    }
}

/// The matched blocks of a document, as `pending_blocks` gives them for the
/// document's events.
pub open spec fn document_blocks(content: Seq<char>) -> Seq<BlockModel> {
    blocks_of(plan(kinds_of(markdown_events(content))))
}

/// The document with each matched block replaced by its rendering, where the
/// output can be written back.
pub open spec fn rewritten(content: Seq<char>, texts: Seq<Option<Seq<char>>>) -> Option<Seq<char>> {
    let out = transformed(markdown_events(content), texts);
    if serializable(kinds_of(out)) {
        markdown_text(out)
    } else {
        None
    }
}

/// What becomes of each event of a document whose events have these kinds.
pub fn plan_actions(kinds: &Vec<EventKind>) -> (actions: Vec<Action>)
    ensures
        action_views(actions@) == plan(kind_views(kinds@)),
{
    let mut state = Accumulator::new();
    let mut actions: Vec<Action> = Vec::new();
    let mut i: usize = 0;
    let ghost models = kind_views(kinds@);
    while i < kinds.len()
        invariant
            i <= kinds.len(),
            models == kind_views(kinds@),
            state@ == state_after(models.take(i as int)),
            action_views(actions@) == plan(models.take(i as int)),
        decreases kinds.len() - i,
    {
        let (next, action) = state.step(&kinds[i]);
        proof {
            assert(models.take(i + 1).drop_last() =~= models.take(i as int));
            assert(models.take(i + 1).last() == kinds@[i as int]@);
            assert(action_views(actions@.push(action)) =~= action_views(actions@).push(action@));
        }
        state = next;
        actions.push(action);
        i += 1;
    }
    assert(models.take(kinds.len() as int) =~= models);
    actions
}

/// The matched blocks of a document, in order: each with the source between
/// its fences and the name of its scratch file.
pub fn pending_blocks(events: &Vec<Event<'_>>) -> (blocks: Vec<PendingBlock>)
    ensures
        block_views(blocks@) == blocks_of(plan(kinds_of(events@))),
{
    let kinds = classify(events);
    let mut actions = plan_actions(&kinds);
    let ghost models = action_views(actions@);
    let mut blocks: Vec<PendingBlock> = Vec::new();
    for action in it: actions
        invariant
            action_views(it.seq()) == models,
            block_views(blocks@) == blocks_of(models.take(it.index() as int)),
    {
        proof {
            let i = it.index() as int;
            assert(models.take(i + 1).drop_last() =~= models.take(i));
            assert(models.take(i + 1).last() == action@);
        }
        match action {
            Action::Evaluate(block) => {
                proof {
                    assert(block_views(blocks@.push(block)) =~= block_views(blocks@).push(block@));
                }
                blocks.push(block);
            },
            _ => {},
        }
    }
    assert(models.take(models.len() as int) =~= models);
    blocks
}

/// The events of the output: every event outside the matched blocks, in
/// order, and in the place of each block the text event that holds
/// `replacements[k]`, the rendering of block `k`. A block without a rendering
/// leaves nothing. Unless a matched block starts inside an open one, a second
/// pass over the output changes nothing.
pub fn substitute<'a>(events: Vec<Event<'a>>, replacements: &Vec<Option<String>>) -> (out: Vec<
    Event<'a>,
>)
    ensures
        out@ == transformed(events@, text_views(replacements@)),
        kinds_of(out@) == output_kinds(kinds_of(events@), text_views(replacements@)),
        !nested(kinds_of(events@)) ==> forall|again: Seq<Option<Seq<char>>>|
            #[trigger] transformed(out@, again) == out@,
{
    let kinds = classify(&events);
    let actions = plan_actions(&kinds);
    let ghost all = events@;
    let ghost models = plan(kinds_of(all));
    let ghost texts = replacement_events(text_views(replacements@));
    let ghost text_kinds = replacement_kinds(text_views(replacements@));
    let mut out: Vec<Event<'a>> = Vec::new();
    let count: usize = actions.len();
    let mut number: usize = 0;
    let mut i: usize = 0;
    proof {
        lemma_plan_len(kinds_of(all));
        assert(action_views(actions@).len() == actions@.len());
        assert(which_supplied(text_kinds) =~= which_supplied(texts));
    }
    for event in it: events
        invariant
            it.seq() == all,
            i == it.index(),
            all.len() == count,
            count == actions@.len(),
            action_views(actions@) == models,
            texts == replacement_events(text_views(replacements@)),
            text_kinds == replacement_kinds(text_views(replacements@)),
            which_supplied(text_kinds) == which_supplied(texts),
            number <= i,
            number == evaluations(models.take(i as int)),
            out@ == assemble(all, models.take(i as int), texts),
            kinds_of(out@) == assemble(kinds_of(all), models.take(i as int), text_kinds),
    {
        let ghost before = origins(models.take(i as int), which_supplied(texts));
        let ghost events_before = before.map_values(|origin: Origin| resolve(all, texts, origin));
        let ghost kinds_before = before.map_values(
            |origin: Origin| resolve(kinds_of(all), text_kinds, origin),
        );
        proof {
            assert(models.take(i + 1).drop_last() =~= models.take(i as int));
            assert(models.take(i + 1).last() == actions@[i as int]@);
        }
        match &actions[i] {
            Action::Pass => {
                proof {
                    let next = before.push(Origin::Event(i as int));
                    assert(next.map_values(|origin: Origin| resolve(all, texts, origin))
                        =~= events_before.push(event));
                    assert(next.map_values(
                        |origin: Origin| resolve(kinds_of(all), text_kinds, origin),
                    ) =~= kinds_before.push(event_kind(event)));
                    assert(kinds_of(out@.push(event)) =~= kinds_of(out@).push(event_kind(event)));
                }
                out.push(event);
            },
            Action::Swallow => {},
            Action::Evaluate(_) => {
                if number < replacements.len() {
                    match &replacements[number] {
                        Some(text) => {
                            let replacement = text_event(text.clone());
                            proof {
                                let next = before.push(
                                    Origin::Block { end: i as int, number: number as int },
                                );
                                assert(texts[number as int] == Some(replacement));
                                assert(text_kinds[number as int] == Some(event_kind(replacement)));
                                assert(next.map_values(
                                    |origin: Origin| resolve(all, texts, origin),
                                ) =~= events_before.push(replacement));
                                assert(next.map_values(
                                    |origin: Origin| resolve(kinds_of(all), text_kinds, origin),
                                ) =~= kinds_before.push(event_kind(replacement)));
                                assert(kinds_of(out@.push(replacement)) =~= kinds_of(out@).push(
                                    event_kind(replacement),
                                ));
                            }
                            out.push(replacement);
                        },
                        None => {},
                    }
                }
                number += 1;
            },
        }
        i += 1;
    }
    assert(models.take(models.len() as int) =~= models);
    proof {
        if !nested(kinds_of(all)) {
            assert forall|again: Seq<Option<Seq<char>>>| #[trigger]
                transformed(out@, again) == out@ by {
                lemma_second_pass(all, text_views(replacements@), out@, again);
            }
        }
    }
    out
}

/// The matched blocks of a document, in order.
pub fn blocks_in(content: &str) -> (blocks: Vec<PendingBlock>)
    ensures
        block_views(blocks@) == document_blocks(content@),
{
    let events = parse_document(content);
    pending_blocks(&events)
}

/// The document with each matched block replaced: `renderings[k]` is the
/// rendering of block `k`, and a block without one leaves nothing. There is
/// no document where the output cannot be written back.
pub fn rewrite(content: &str, renderings: &Vec<Option<String>>) -> (text: Option<String>)
    ensures
        text_of(text) == rewritten(content@, text_views(renderings@)),
{
    let events = parse_document(content);
    let out = substitute(events, renderings);
    write_document(&out)
}

} // verus!
