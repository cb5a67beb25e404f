//! The document events the renderer works on, and their exchange with the
//! markdown parser and HTML writer of `pulldown_cmark`.

use vstd::prelude::*;
use crate::sections::{Rendered, RenderedView, heading_ends, heading_starts, rviews};
use pulldown_cmark::{BlockQuoteKind, CodeBlockKind, CowStr, Event, HeadingLevel, Options, Parser, Tag, TagEnd};

verus! {

#[verifier::external_type_specification]
#[verifier::external_body]
pub struct ExEvent<'a>(Event<'a>);

#[verifier::external_type_specification]
#[verifier::external_body]
pub struct ExTag<'a>(Tag<'a>);

#[verifier::external_type_specification]
#[verifier::external_body]
pub struct ExCowStr<'a>(CowStr<'a>);

#[verifier::external_type_specification]
#[verifier::external_body]
pub struct ExHeadingLevel(HeadingLevel);

#[verifier::external_type_specification]
#[verifier::external_body]
pub struct ExBlockQuoteKind(BlockQuoteKind);

/// Classification of an alert blockquote.
#[derive(Clone, Copy, Debug, PartialEq, Eq, Structural)]
pub enum AlertKind {
    Note,
    Tip,
    Important,
    Warning,
    Caution,
}

/// One event of a parsed document. What the renderer reads is held as plain
/// values; every other event travels untouched in `Other`.
pub enum MdEvent {
    /// Start of a heading of level 1 to 6.
    HeadingStart {
        level: u8,
        id: Option<String>,
        classes: Vec<String>,
        attrs: Vec<(String, Option<String>)>,
    },
    HeadingEnd(u8),
    BlockQuoteStart(Option<AlertKind>),
    /// Start of a code block: `None` when indented, else the fence's language tag.
    CodeBlockStart(Option<String>),
    CodeBlockEnd,
    Text(String),
    Html(String),
    InlineMath(String),
    DisplayMath(String),
    Other(Event<'static>),
}

/// The mathematical value of an [`MdEvent`].
pub enum EventView {
    HeadingStart {
        level: u8,
        id: Option<Seq<char>>,
        classes: Seq<Seq<char>>,
        attrs: Seq<(Seq<char>, Option<Seq<char>>)>,
    },
    HeadingEnd(u8),
    BlockQuoteStart(Option<AlertKind>),
    CodeBlockStart(Option<Seq<char>>),
    CodeBlockEnd,
    Text(Seq<char>),
    Html(Seq<char>),
    InlineMath(Seq<char>),
    DisplayMath(Seq<char>),
    Other(Event<'static>),
}

pub open spec fn opt_view(o: Option<String>) -> Option<Seq<char>> {
    match o {
        Some(s) => Some(s@),
        None => None,
    }
}

impl View for MdEvent {
    type V = EventView;

    open spec fn view(&self) -> EventView {
        match self {
            MdEvent::HeadingStart { level, id, classes, attrs } => EventView::HeadingStart {
                level: *level,
                id: opt_view(*id),
                classes: classes@.map_values(|c: String| c@),
                attrs: attrs@.map_values(|a: (String, Option<String>)| (a.0@, opt_view(a.1))),
            },
            MdEvent::HeadingEnd(l) => EventView::HeadingEnd(*l),
            MdEvent::BlockQuoteStart(k) => EventView::BlockQuoteStart(*k),
            MdEvent::CodeBlockStart(lang) => EventView::CodeBlockStart(opt_view(*lang)),
            MdEvent::CodeBlockEnd => EventView::CodeBlockEnd,
            MdEvent::Text(t) => EventView::Text(t@),
            MdEvent::Html(h) => EventView::Html(h@),
            MdEvent::InlineMath(t) => EventView::InlineMath(t@),
            MdEvent::DisplayMath(t) => EventView::DisplayMath(t@),
            MdEvent::Other(e) => EventView::Other(*e),
        }
    }
}

/// Heading levels are 1 to 6.
pub open spec fn valid_event(e: EventView) -> bool {
    match e {
        EventView::HeadingStart { level, .. } => 1 <= level <= 6,
        EventView::HeadingEnd(level) => 1 <= level <= 6,
        _ => true,
    }
}

pub open spec fn valid_events(es: Seq<EventView>) -> bool {
    forall|i: int| 0 <= i < es.len() ==> valid_event(#[trigger] es[i])
}

/// Relies on `Clone` of `pulldown_cmark::Event`: a copy that holds the same
/// text (a short string may be stored inline in the copy).
#[verifier::external_body]
fn clone_event(e: &Event<'static>) -> Event<'static> {
    e.clone()
}

pub fn clone_opt_string(o: &Option<String>) -> (r: Option<String>)
    ensures
        opt_view(r) == opt_view(*o),
{
    match o {
        Some(s) => Some(s.clone()),
        None => None,
    }
}

pub open spec fn views(es: Seq<MdEvent>) -> Seq<EventView> {
    es.map_values(|e: MdEvent| e@)
}

/// The events that the markdown parser gives for a text.
pub uninterp spec fn parsed(text: Seq<char>) -> Seq<EventView>;

/// The HTML that the event writer produces for a sequence of events.
pub uninterp spec fn html_of(events: Seq<EventView>) -> Seq<char>;

/// Relies on `pulldown_cmark::Parser::new_ext` with tables, task lists,
/// footnotes, math and GitHub blockquote alerts: the events depend on the
/// text alone, a heading's level is 1 to 6 (`HeadingLevel` has no other),
/// and start and end events are balanced (as the parser documents), so every
/// heading that starts also ends.
#[verifier::external_body]
pub fn parse_events(text: &str) -> (r: Vec<MdEvent>)
    ensures
        views(r@) == parsed(text@),
        valid_events(views(r@)),
        heading_starts(views(r@)) == heading_ends(views(r@)),
{
    let options = Options::ENABLE_TABLES | Options::ENABLE_TASKLISTS | Options::ENABLE_FOOTNOTES
        | Options::ENABLE_MATH | Options::ENABLE_GFM;
    Parser::new_ext(text, options).map(|e| from_parser(e.into_static())).collect()
}

/// The events that the markdown parser gives for a text with tables, task
/// lists and footnotes only.
pub uninterp spec fn parsed_basic(text: Seq<char>) -> Seq<EventView>;

/// Relies on `pulldown_cmark::Parser::new_ext` with tables, task lists and
/// footnotes: the events depend on the text alone, and a heading's level is
/// 1 to 6 (`HeadingLevel` has no other).
#[verifier::external_body]
pub fn parse_events_basic(text: &str) -> (r: Vec<MdEvent>)
    ensures
        views(r@) == parsed_basic(text@),
        valid_events(views(r@)),
{
    let options = Options::ENABLE_TABLES | Options::ENABLE_TASKLISTS | Options::ENABLE_FOOTNOTES;
    Parser::new_ext(text, options).map(|e| from_parser(e.into_static())).collect()
}

/// Moves the fields of a `pulldown_cmark::Event` into an [`MdEvent`].
#[verifier::external_body]
fn from_parser(e: Event<'static>) -> MdEvent {
    match e {
        Event::Start(tag) => from_start_tag(tag),
        Event::End(TagEnd::Heading(level)) => MdEvent::HeadingEnd(level as u8),
        Event::End(TagEnd::CodeBlock) => MdEvent::CodeBlockEnd,
        Event::Text(t) => MdEvent::Text(t.into_string()),
        Event::InlineMath(t) => MdEvent::InlineMath(t.into_string()),
        Event::DisplayMath(t) => MdEvent::DisplayMath(t.into_string()),
        other => MdEvent::Other(other),
    }
}

/// Moves the fields of a `pulldown_cmark::Tag` that starts an element into an [`MdEvent`].
#[verifier::external_body]
fn from_start_tag(tag: Tag<'static>) -> MdEvent {
    match tag {
        Tag::Heading { level, id, classes, attrs } => heading_from_parser(level, id, classes, attrs),
        Tag::BlockQuote(kind) => MdEvent::BlockQuoteStart(kind.map(alert_from_parser)),
        Tag::CodeBlock(CodeBlockKind::Indented) => MdEvent::CodeBlockStart(None),
        Tag::CodeBlock(CodeBlockKind::Fenced(lang)) => MdEvent::CodeBlockStart(Some(lang.into_string())),
        other => MdEvent::Other(Event::Start(other)),
    }
}

/// Moves the fields of a `pulldown_cmark::Tag::Heading` into an [`MdEvent`],
/// its strings as `String`s.
#[verifier::external_body]
fn heading_from_parser(
    level: HeadingLevel,
    id: Option<CowStr<'static>>,
    classes: Vec<CowStr<'static>>,
    attrs: Vec<(CowStr<'static>, Option<CowStr<'static>>)>,
) -> MdEvent {
    let classes = classes.into_iter().map(CowStr::into_string).collect();
    let attrs = attrs.into_iter().map(|(k, v)| (k.into_string(), v.map(CowStr::into_string))).collect();
    MdEvent::HeadingStart { level: level as u8, id: id.map(CowStr::into_string), classes, attrs }
}

/// Maps `pulldown_cmark::BlockQuoteKind` to [`AlertKind`], variant for variant.
#[verifier::external_body]
fn alert_from_parser(k: BlockQuoteKind) -> AlertKind {
    match k {
        BlockQuoteKind::Note => AlertKind::Note,
        BlockQuoteKind::Tip => AlertKind::Tip,
        BlockQuoteKind::Important => AlertKind::Important,
        BlockQuoteKind::Warning => AlertKind::Warning,
        BlockQuoteKind::Caution => AlertKind::Caution,
    }
}

/// Maps [`AlertKind`] to `pulldown_cmark::BlockQuoteKind`, variant for variant.
#[verifier::external_body]
fn alert_to_parser(k: AlertKind) -> BlockQuoteKind {
    match k {
        AlertKind::Note => BlockQuoteKind::Note,
        AlertKind::Tip => BlockQuoteKind::Tip,
        AlertKind::Important => BlockQuoteKind::Important,
        AlertKind::Warning => BlockQuoteKind::Warning,
        AlertKind::Caution => BlockQuoteKind::Caution,
    }
}

/// Builds `pulldown_cmark::Event::Start(Tag::Heading { .. })`; relies on
/// `HeadingLevel::try_from`, which accepts the levels 1 to 6.
#[verifier::external_body]
fn heading_start_event(
    level: u8,
    id: Option<String>,
    classes: Vec<String>,
    attrs: Vec<(String, Option<String>)>,
) -> Event<'static>
    requires
        1 <= level <= 6,
{
    let level = HeadingLevel::try_from(level as usize).unwrap();
    let classes = classes.into_iter().map(CowStr::from).collect();
    let attrs = attrs.into_iter().map(|(k, v)| (CowStr::from(k), v.map(CowStr::from))).collect();
    Event::Start(Tag::Heading { level, id: id.map(CowStr::from), classes, attrs })
}

/// Builds `pulldown_cmark::Event::End(TagEnd::Heading(..))`; relies on
/// `HeadingLevel::try_from`, which accepts the levels 1 to 6.
#[verifier::external_body]
fn heading_end_event(level: u8) -> Event<'static>
    requires
        1 <= level <= 6,
{
    Event::End(TagEnd::Heading(HeadingLevel::try_from(level as usize).unwrap()))
}

/// Builds `pulldown_cmark::Event::Start(Tag::BlockQuote(..))`.
#[verifier::external_body]
fn block_quote_event(kind: Option<AlertKind>) -> Event<'static> {
    Event::Start(Tag::BlockQuote(kind.map(alert_to_parser)))
}

/// Builds `pulldown_cmark::Event::Start(Tag::CodeBlock(..))`.
#[verifier::external_body]
fn code_start_event(lang: Option<String>) -> Event<'static> {
    match lang {
        None => Event::Start(Tag::CodeBlock(CodeBlockKind::Indented)),
        Some(l) => Event::Start(Tag::CodeBlock(CodeBlockKind::Fenced(l.into()))),
    }
}

/// Builds `pulldown_cmark::Event::End(TagEnd::CodeBlock)`.
#[verifier::external_body]
fn code_end_event() -> Event<'static> {
    Event::End(TagEnd::CodeBlock)
}

/// Builds `pulldown_cmark::Event::Text`.
#[verifier::external_body]
fn text_event(t: String) -> Event<'static> {
    Event::Text(t.into())
}

/// Builds `pulldown_cmark::Event::Html`.
#[verifier::external_body]
fn html_event(h: String) -> Event<'static> {
    Event::Html(h.into())
}

/// Builds `pulldown_cmark::Event::InlineMath`.
#[verifier::external_body]
fn inline_math_event(t: String) -> Event<'static> {
    Event::InlineMath(t.into())
}

/// Builds `pulldown_cmark::Event::DisplayMath`.
#[verifier::external_body]
fn display_math_event(t: String) -> Event<'static> {
    Event::DisplayMath(t.into())
}

/// The parser event that an [`MdEvent`] stands for, built from copies of
/// its strings.
pub fn to_parser(e: &MdEvent) -> Event<'static>
    requires
        valid_event(e@),
{
    match e {
        MdEvent::HeadingStart { level, id, classes, attrs } => heading_start_event(
            *level,
            clone_opt_string(id),
            classes.clone(),
            attrs.clone(),
        ),
        MdEvent::HeadingEnd(level) => heading_end_event(*level),
        MdEvent::BlockQuoteStart(kind) => block_quote_event(*kind),
        MdEvent::CodeBlockStart(lang) => code_start_event(clone_opt_string(lang)),
        MdEvent::CodeBlockEnd => code_end_event(),
        MdEvent::Text(t) => text_event(t.clone()),
        MdEvent::Html(h) => html_event(h.clone()),
        MdEvent::InlineMath(t) => inline_math_event(t.clone()),
        MdEvent::DisplayMath(t) => display_math_event(t.clone()),
        MdEvent::Other(e) => clone_event(e),
    }
}

/// The document events found at positions `at` of a rendered stream.
pub open spec fn picked(rs: Seq<RenderedView>, at: Seq<usize>) -> Seq<EventView> {
    Seq::new(at.len(), |j: int| rs[at[j] as int]->Event_0)
}

/// Every position in `at` holds a valid document event of `rs`.
pub open spec fn picks_events(rs: Seq<RenderedView>, at: Seq<usize>) -> bool {
    forall|j: int|
        0 <= j < at.len() ==> {
            &&& #[trigger] at[j] < rs.len()
            &&& rs[at[j] as int] is Event
            &&& valid_event(rs[at[j] as int]->Event_0)
        }
}

/// The parser event for the document event at position `i` of a stream.
pub fn event_at(rs: &Vec<Rendered>, i: usize) -> Event<'static>
    requires
        i < rs.len(),
        rviews(rs@)[i as int] is Event,
        valid_event(rviews(rs@)[i as int]->Event_0),
{
    assert(rviews(rs@)[i as int] == rs@[i as int]@);
    match &rs[i] {
        Rendered::Event(e) => to_parser(e),
        _ => html_event(String::new()),
    }
}

/// Relies on `pulldown_cmark::html::push_html`: the HTML of the events at
/// positions `at`, in that order, which depends on the events' text alone
/// (not on how a string is stored).
#[verifier::external_body]
pub fn write_html(rs: &Vec<Rendered>, at: &Vec<usize>) -> (r: String)
    requires
        picks_events(rviews(rs@), at@),
    ensures
        r@ == html_of(picked(rviews(rs@), at@)),
{
    let mut out = String::new();
    pulldown_cmark::html::push_html(&mut out, at.iter().map(|i| event_at(rs, *i)));
    out
}


/// Writes document events as HTML.
pub fn write_events(events: Vec<MdEvent>) -> (r: String)
    requires
        valid_events(views(events@)),
    ensures
        r@ == html_of(views(events@)),
{
    let ghost ev = views(events@);
    let mut rs: Vec<Rendered> = Vec::new();
    let mut at: Vec<usize> = Vec::new();
    for e in it: events
        invariant
            ev == views(it.seq()),
            rs@.len() == it.index(),
            at@.len() == it.index(),
            forall|j: int| 0 <= j < rs@.len() ==> #[trigger] rviews(rs@)[j] == RenderedView::Event(ev[j]),
            forall|j: int| 0 <= j < at@.len() ==> #[trigger] at@[j] == j,
    {
        let ghost i = it.index() as int;
        let ghost r0 = rs@;
        assert(ev[i] == e@);
        at.push(rs.len());
        rs.push(Rendered::Event(e));
        assert forall|j: int| 0 <= j < rs@.len() implies #[trigger] rviews(rs@)[j] == RenderedView::Event(ev[j]) by {
            if j < r0.len() {
                assert(rs@[j] == r0[j]);
                assert(rviews(r0)[j] == RenderedView::Event(ev[j]));
            }
        }
    }
    assert(picks_events(rviews(rs@), at@)) by {
        assert forall|j: int| 0 <= j < at@.len() implies {
            &&& #[trigger] at@[j] < rviews(rs@).len()
            &&& rviews(rs@)[at@[j] as int] is Event
            &&& valid_event(rviews(rs@)[at@[j] as int]->Event_0)
        } by {
            assert(rviews(rs@)[j] == RenderedView::Event(ev[j]));
        }
    }
    assert(picked(rviews(rs@), at@) =~= ev) by {
        assert forall|j: int| 0 <= j < ev.len() implies picked(rviews(rs@), at@)[j] == ev[j] by {
            assert(rviews(rs@)[j] == RenderedView::Event(ev[j]));
        }
    }
    write_html(&rs, &at)
}

} // verus!
