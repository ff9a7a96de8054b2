//! The document as a sequence of Markdown events, and what this library reads
//! of an event.

use crate::text::text_of;
use pulldown_cmark::{CodeBlockKind, Event, Parser, Tag, TagEnd};
use vstd::prelude::*;

verus! {

#[verifier::external_type_specification]
#[verifier::external_body]
pub struct ExEvent<'a>(Event<'a>);

/// What the library reads of an event: the three kinds that the transform
/// looks at, and the six that open and close a heading, a link or an image,
/// which decide whether a sequence can be written back as text.
#[derive(Clone, Debug, PartialEq, Eq)]
pub enum EventKind {
    /// The start of a fenced code block, with its annotation.
    FenceStart(String),
    /// The end of a code block.
    CodeBlockEnd,
    /// A run of text.
    Text(String),
    HeadingStart,
    HeadingEnd,
    LinkStart,
    LinkEnd,
    ImageStart,
    ImageEnd,
    /// Any other event.
    Other,
}

/// An `EventKind` over character sequences.
pub enum KindModel {
    FenceStart(Seq<char>),
    CodeBlockEnd,
    Text(Seq<char>),
    HeadingStart,
    HeadingEnd,
    LinkStart,
    LinkEnd,
    ImageStart,
    ImageEnd,
    Other,
}

impl View for EventKind {
    type V = KindModel;

    open spec fn view(&self) -> KindModel {
        match self {
            EventKind::FenceStart(info) => KindModel::FenceStart(info@),
            EventKind::CodeBlockEnd => KindModel::CodeBlockEnd,
            EventKind::Text(text) => KindModel::Text(text@),
            EventKind::HeadingStart => KindModel::HeadingStart,
            EventKind::HeadingEnd => KindModel::HeadingEnd,
            EventKind::LinkStart => KindModel::LinkStart,
            EventKind::LinkEnd => KindModel::LinkEnd,
            EventKind::ImageStart => KindModel::ImageStart,
            EventKind::ImageEnd => KindModel::ImageEnd,
            EventKind::Other => KindModel::Other,
        }
    }
}

/// The kind of an event.
pub uninterp spec fn event_kind(event: Event<'_>) -> KindModel;

/// The text event that holds `text`.
pub uninterp spec fn text_event_of(text: Seq<char>) -> Event<'static>;

/// The events that the parser reads from a document.
pub uninterp spec fn markdown_events(content: Seq<char>) -> Seq<Event<'static>>;

/// The document that the serializer writes for a sequence of events, where it
/// writes one.
pub uninterp spec fn markdown_text(events: Seq<Event<'static>>) -> Option<Seq<char>>;

/// The kinds of a sequence of events.
pub open spec fn kinds_of(events: Seq<Event<'_>>) -> Seq<KindModel> {
    events.map_values(|event: Event<'_>| event_kind(event))
}

/// The views of a sequence of kinds.
pub open spec fn kind_views(kinds: Seq<EventKind>) -> Seq<KindModel> {
    kinds.map_values(|kind: EventKind| kind@)
}

/// How many links and images are open, and whether a heading is.
pub struct Nesting {
    pub links: nat,
    pub images: nat,
    pub heading: bool,
}

/// The nesting after an event of kind `kind`, or `None` where the event closes
/// what is not open or starts a heading inside a heading.
pub open spec fn nest(before: Nesting, kind: KindModel) -> Option<Nesting> {
    match kind {
        KindModel::HeadingStart => if before.heading {
            None
        } else {
            Some(Nesting { heading: true, ..before })
        },
        KindModel::HeadingEnd => if before.heading {
            Some(Nesting { heading: false, ..before })
        } else {
            None
        },
        KindModel::LinkStart => Some(Nesting { links: before.links + 1, ..before }),
        KindModel::LinkEnd => if before.links > 0 {
            Some(Nesting { links: (before.links - 1) as nat, ..before })
        } else {
            None
        },
        KindModel::ImageStart => Some(Nesting { images: before.images + 1, ..before }),
        KindModel::ImageEnd => if before.images > 0 {
            Some(Nesting { images: (before.images - 1) as nat, ..before })
        } else {
            None
        },
        _ => Some(before),
    }
}

/// The nesting at the end of `kinds`, or `None` where some event in it closes
/// what is not open or starts a heading inside a heading.
pub open spec fn nesting(kinds: Seq<KindModel>) -> Option<Nesting>
    decreases kinds.len(),
{
    if kinds.len() == 0 {
        Some(Nesting { links: 0, images: 0, heading: false })
    } else {
        match nesting(kinds.drop_last()) {
            Some(before) => nest(before, kinds.last()),
            None => None,
        }
    }
}

/// Whether a sequence of events of these kinds can be written back as text:
/// every end of a heading, a link or an image follows its start, and no
/// heading starts inside another.
pub open spec fn serializable(kinds: Seq<KindModel>) -> bool {
    nesting(kinds) is Some
}

/// A sequence with a prefix that cannot be written cannot be written.
pub proof fn lemma_nesting_prefix(kinds: Seq<KindModel>, n: int)
    requires
        0 <= n <= kinds.len(),
        nesting(kinds.take(n)) is None,
    ensures
        nesting(kinds) is None,
    decreases kinds.len() - n,
{
    if n < kinds.len() {
        assert(kinds.take(n + 1).drop_last() =~= kinds.take(n));
        lemma_nesting_prefix(kinds, n + 1);
    } else {
        assert(kinds.take(n) =~= kinds);
    }
}

/// Tells the variants of `pulldown_cmark::Event` apart. The contract claims
/// that the kind depends on the event alone.
#[verifier::external_body]
fn kind_of(event: &Event<'_>) -> (kind: EventKind)
    ensures
        kind@ == event_kind(*event),
{
    match event {
        Event::Start(Tag::CodeBlock(CodeBlockKind::Fenced(info))) => EventKind::FenceStart(info.to_string()),
        Event::End(TagEnd::CodeBlock) => EventKind::CodeBlockEnd,
        Event::Text(text) => EventKind::Text(text.to_string()),
        Event::Start(Tag::Heading { .. }) => EventKind::HeadingStart,
        Event::End(TagEnd::Heading(_)) => EventKind::HeadingEnd,
        Event::Start(Tag::Link { .. }) => EventKind::LinkStart,
        Event::End(TagEnd::Link) => EventKind::LinkEnd,
        Event::Start(Tag::Image { .. }) => EventKind::ImageStart,
        Event::End(TagEnd::Image) => EventKind::ImageEnd,
        _ => EventKind::Other,
    }
}

/// Builds `pulldown_cmark::Event::Text`. The contract claims that the event
/// depends on the text alone and is a text event that holds it.
#[verifier::external_body]
pub(crate) fn text_event(text: String) -> (event: Event<'static>)
    ensures
        event == text_event_of(text@),
        event_kind(event) == KindModel::Text(text@),
{
    Event::Text(text.into())
}

/// Runs `pulldown_cmark::Parser::new` to its end. The contract claims that
/// the events depend on the document alone.
#[verifier::external_body]
fn parse_events(content: &str) -> (events: Vec<Event<'_>>)
    ensures
        events@ == markdown_events(content@),
{
    Parser::new(content).collect()
}

/// Calls `pulldown_cmark_to_cmark::cmark` with a `String` to write to. That
/// function takes for granted that a heading, a link or an image is open
/// when it ends, and that no heading is when one starts: `requires` asks for
/// it. The contract claims that the text depends on the events alone.
#[verifier::external_body]
fn render_events(events: &Vec<Event<'_>>) -> (text: Option<String>)
    requires
        serializable(kinds_of(events@)),
    ensures
        text_of(text) == markdown_text(events@),
{
    let mut text = String::new();
    match pulldown_cmark_to_cmark::cmark(events.iter(), &mut text) {
        Ok(_) => Some(text),
        Err(_) => None,
    }
}

/// The events of a document.
pub fn parse_document(content: &str) -> (events: Vec<Event<'_>>)
    ensures
        events@ == markdown_events(content@),
{
    parse_events(content)
}

/// The kind of each event, in order.
pub fn classify(events: &Vec<Event<'_>>) -> (kinds: Vec<EventKind>)
    ensures
        kind_views(kinds@) == kinds_of(events@),
{
    let mut kinds: Vec<EventKind> = Vec::new();
    let mut i: usize = 0;
    while i < events.len()
        invariant
            i <= events.len(),
            kind_views(kinds@) == kinds_of(events@.take(i as int)),
        decreases events.len() - i,
    {
        let kind = kind_of(&events[i]);
        proof {
            assert(kind_views(kinds@.push(kind)) =~= kind_views(kinds@).push(kind@));
            assert(kinds_of(events@.take(i + 1)) =~= kinds_of(events@.take(i as int)).push(
                event_kind(events@[i as int]),
            ));
        }
        kinds.push(kind);
        i += 1;
    }
    assert(events@.take(events.len() as int) =~= events@);
    kinds
}

/// Writes the events back as a document. There is none where the events
/// cannot be written: where one closes a heading, a link or an image that is
/// not open, or starts a heading inside another.
pub fn write_document(events: &Vec<Event<'_>>) -> (text: Option<String>)
    ensures
        text_of(text) == (if serializable(kinds_of(events@)) {
            markdown_text(events@)
        } else {
            None
        }),
{
    let mut links: usize = 0;
    let mut images: usize = 0;
    let mut heading = false;
    let mut i: usize = 0;
    let ghost kinds = kinds_of(events@);
    while i < events.len()
        invariant
            i <= events.len(),
            links <= i,
            images <= i,
            kinds == kinds_of(events@),
            nesting(kinds.take(i as int)) == Some(
                Nesting { links: links as nat, images: images as nat, heading },
            ),
        decreases events.len() - i,
    {
        let kind = kind_of(&events[i]);
        proof {
            assert(kinds.take(i + 1).drop_last() =~= kinds.take(i as int));
            assert(kinds.take(i + 1).last() == kind@);
        }
        let mut open = true;
        match kind {
            EventKind::HeadingStart => {
                open = !heading;
                heading = true;
            },
            EventKind::HeadingEnd => {
                open = heading;
                heading = false;
            },
            EventKind::LinkStart => {
                links += 1;
            },
            EventKind::LinkEnd => {
                if links > 0 {
                    links -= 1;
                } else {
                    open = false;
                }
            },
            EventKind::ImageStart => {
                images += 1;
            },
            EventKind::ImageEnd => {
                if images > 0 {
                    images -= 1;
                } else {
                    open = false;
                }
            },
            _ => {},
        }
        if !open {
            proof {
                lemma_nesting_prefix(kinds, i + 1);
            }
            return None;
        }
        i += 1;
    }
    assert(kinds.take(events.len() as int) =~= kinds);
    render_events(events)
}

} // verus!
