//! The heading and sectioning pass: wraps each heading in a `<section>`
//! nested by level, gives each heading an id, builds the table of contents,
//! typesets math and adds the title line of alert blockquotes.

use vstd::prelude::*;
use crate::events::{AlertKind, picked, picks_events, EventView, MdEvent, html_of, opt_view, valid_event, valid_events, views, write_html};
use crate::math::{katex_display, katex_inline, render_display_math, render_inline_math};
use crate::slug::{slug_of, title_to_slug};
use crate::text::{decimal, push_decimal};

verus! {

/// The title line shown at the top of a note alert.
pub const NOTE_BANNER: &'static str = r#"<p class="markdown-alert-title" dir="auto"><svg class="octicon octicon-info mr-2" viewBox="0 0 16 16" version="1.1" width="16" height="16" aria-hidden="true"><path d="M0 8a8 8 0 1 1 16 0A8 8 0 0 1 0 8Zm8-6.5a6.5 6.5 0 1 0 0 13 6.5 6.5 0 0 0 0-13ZM6.5 7.75A.75.75 0 0 1 7.25 7h1a.75.75 0 0 1 .75.75v2.75h.25a.75.75 0 0 1 0 1.5h-2a.75.75 0 0 1 0-1.5h.25v-2h-.25a.75.75 0 0 1-.75-.75ZM8 6a1 1 0 1 1 0-2 1 1 0 0 1 0 2Z"></path></svg>Note</p>"#;

/// The title line shown at the top of a tip alert.
pub const TIP_BANNER: &'static str = r#"<p class="markdown-alert-title" dir="auto"><svg class="octicon octicon-light-bulb mr-2" viewBox="0 0 16 16" version="1.1" width="16" height="16" aria-hidden="true"><path d="M8 1.5c-2.363 0-4 1.69-4 3.75 0 .984.424 1.625.984 2.304l.214.253c.223.264.47.556.673.848.284.411.537.896.621 1.49a.75.75 0 0 1-1.484.211c-.04-.282-.163-.547-.37-.847a8.456 8.456 0 0 0-.542-.68c-.084-.1-.173-.205-.268-.32C3.201 7.75 2.5 6.766 2.5 5.25 2.5 2.31 4.863 0 8 0s5.5 2.31 5.5 5.25c0 1.516-.701 2.5-1.328 3.259-.095.115-.184.22-.268.319-.207.245-.383.453-.541.681-.208.3-.33.565-.37.847a.751.751 0 0 1-1.485-.212c.084-.593.337-1.078.621-1.489.203-.292.45-.584.673-.848.075-.088.147-.173.213-.253.561-.679.985-1.32.985-2.304 0-2.06-1.637-3.75-4-3.75ZM5.75 12h4.5a.75.75 0 0 1 0 1.5h-4.5a.75.75 0 0 1 0-1.5ZM6 15.25a.75.75 0 0 1 .75-.75h2.5a.75.75 0 0 1 0 1.5h-2.5a.75.75 0 0 1-.75-.75Z"></path></svg>Tip</p>"#;

/// The title line shown at the top of a important alert.
pub const IMPORTANT_BANNER: &'static str = r#"<p class="markdown-alert-title" dir="auto"><svg class="octicon octicon-report mr-2" viewBox="0 0 16 16" version="1.1" width="16" height="16" aria-hidden="true"><path d="M0 1.75C0 .784.784 0 1.75 0h12.5C15.216 0 16 .784 16 1.75v9.5A1.75 1.75 0 0 1 14.25 13H8.06l-2.573 2.573A1.458 1.458 0 0 1 3 14.543V13H1.75A1.75 1.75 0 0 1 0 11.25Zm1.75-.25a.25.25 0 0 0-.25.25v9.5c0 .138.112.25.25.25h2a.75.75 0 0 1 .75.75v2.19l2.72-2.72a.749.749 0 0 1 .53-.22h6.5a.25.25 0 0 0 .25-.25v-9.5a.25.25 0 0 0-.25-.25Zm7 2.25v2.5a.75.75 0 0 1-1.5 0v-2.5a.75.75 0 0 1 1.5 0ZM9 9a1 1 0 1 1-2 0 1 1 0 0 1 2 0Z"></path></svg>Important</p>"#;

/// The title line shown at the top of a warning alert.
pub const WARNING_BANNER: &'static str = r#"<p class="markdown-alert-title" dir="auto"><svg class="octicon octicon-alert mr-2" viewBox="0 0 16 16" version="1.1" width="16" height="16" aria-hidden="true"><path d="M6.457 1.047c.659-1.234 2.427-1.234 3.086 0l6.082 11.378A1.75 1.75 0 0 1 14.082 15H1.918a1.75 1.75 0 0 1-1.543-2.575Zm1.763.707a.25.25 0 0 0-.44 0L1.698 13.132a.25.25 0 0 0 .22.368h12.164a.25.25 0 0 0 .22-.368Zm.53 3.996v2.5a.75.75 0 0 1-1.5 0v-2.5a.75.75 0 0 1 1.5 0ZM9 11a1 1 0 1 1-2 0 1 1 0 0 1 2 0Z"></path></svg>Warning</p>"#;

/// The title line shown at the top of a caution alert.
pub const CAUTION_BANNER: &'static str = r#"<p class="markdown-alert-title" dir="auto"><svg class="octicon octicon-stop mr-2" viewBox="0 0 16 16" version="1.1" width="16" height="16" aria-hidden="true"><path d="M4.47.22A.749.749 0 0 1 5 0h6c.199 0 .389.079.53.22l4.25 4.25c.141.14.22.331.22.53v6a.749.749 0 0 1-.22.53l-4.25 4.25A.749.749 0 0 1 11 16H5a.749.749 0 0 1-.53-.22L.22 11.53A.749.749 0 0 1 0 11V5c0-.199.079-.389.22-.53Zm.84 1.28L1.5 5.31v5.38l3.81 3.81h5.38l3.81-3.81V5.31L10.69 1.5ZM8 4a.75.75 0 0 1 .75.75v3.5a.75.75 0 0 1-1.5 0v-3.5A.75.75 0 0 1 8 4Zm0 8a1 1 0 1 1 0-2 1 1 0 0 1 0 2Z"></path></svg>Caution</p>"#;
/// The title line of an alert of the given kind.
pub open spec fn banner(k: AlertKind) -> Seq<char> {
    match k {
        AlertKind::Note => NOTE_BANNER@,
        AlertKind::Tip => TIP_BANNER@,
        AlertKind::Important => IMPORTANT_BANNER@,
        AlertKind::Warning => WARNING_BANNER@,
        AlertKind::Caution => CAUTION_BANNER@,
    }
}

/// The title line of an alert of the given kind.
pub fn alert_banner(k: AlertKind) -> (r: String)
    ensures
        r@ == banner(k),
{
    match k {
        AlertKind::Note => String::from_str(NOTE_BANNER),
        AlertKind::Tip => String::from_str(TIP_BANNER),
        AlertKind::Important => String::from_str(IMPORTANT_BANNER),
        AlertKind::Warning => String::from_str(WARNING_BANNER),
        AlertKind::Caution => String::from_str(CAUTION_BANNER),
    }
}

/// What a heading id that is not yet resolved starts with.
pub const PLACEHOLDER_PREFIX: &'static str = "heading-id312-";

/// The placeholder id of the `n`-th heading that came without an id.
pub open spec fn placeholder(n: nat) -> Seq<char> {
    PLACEHOLDER_PREFIX@ + decimal(n)
}

pub fn make_placeholder(n: usize) -> (r: String)
    ensures
        r@ == placeholder(n as nat),
{
    let mut s = String::from_str(PLACEHOLDER_PREFIX);
    push_decimal(&mut s, n as u64);
    s
}

/// An event of the rendered stream: a document event, or the start or end
/// of a section.
pub enum Rendered {
    Event(MdEvent),
    SectionOpen(String),
    SectionClose,
}

pub enum RenderedView {
    Event(EventView),
    SectionOpen(Seq<char>),
    SectionClose,
}

impl View for Rendered {
    type V = RenderedView;

    open spec fn view(&self) -> RenderedView {
        match self {
            Rendered::Event(e) => RenderedView::Event(e@),
            Rendered::SectionOpen(id) => RenderedView::SectionOpen(id@),
            Rendered::SectionClose => RenderedView::SectionClose,
        }
    }
}

pub open spec fn rviews(rs: Seq<Rendered>) -> Seq<RenderedView> {
    rs.map_values(|r: Rendered| r@)
}

/// One entry of the table of contents.
pub struct Header {
    pub level: u8,
    /// The heading's content as HTML.
    pub text: String,
    /// The slug of the heading's plain text.
    pub id: String,
}

pub struct HeaderView {
    pub level: u8,
    pub text: Seq<char>,
    pub id: Seq<char>,
}

impl View for Header {
    type V = HeaderView;

    open spec fn view(&self) -> HeaderView {
        HeaderView { level: self.level, text: self.text@, id: self.id@ }
    }
}

pub open spec fn hviews(hs: Seq<Header>) -> Seq<HeaderView> {
    hs.map_values(|h: Header| h@)
}

pub open spec fn pair_views(ps: Seq<(String, String)>) -> Seq<(Seq<char>, Seq<char>)> {
    ps.map_values(|p: (String, String)| (p.0@, p.1@))
}

/// The state of the pass between two events.
pub struct SectionModel {
    pub out: Seq<RenderedView>,
    pub toc: Seq<HeaderView>,
    /// Placeholder ids with the slugs they resolve to, in the order of their headings.
    pub id_map: Seq<(Seq<char>, Seq<char>)>,
    /// Levels of the sections still open, outermost first.
    pub stack: Seq<u8>,
    pub in_header: bool,
    pub level: u8,
    /// Text of the current heading, without markup.
    pub plain: Seq<char>,
    /// Events of the current heading's content.
    pub content: Seq<EventView>,
    /// The placeholder given to the current heading, if it came without an id.
    pub placeholder: Option<Seq<char>>,
    /// How many placeholders were handed out.
    pub counter: nat,
}

pub open spec fn initial_model() -> SectionModel {
    SectionModel {
        out: Seq::empty(),
        toc: Seq::empty(),
        id_map: Seq::empty(),
        stack: Seq::empty(),
        in_header: false,
        level: 1,
        plain: Seq::empty(),
        content: Seq::empty(),
        placeholder: None,
        counter: 0,
    }
}

/// How many open sections a heading of `level` closes: those on top of the
/// stack whose level is at least `level`.
pub open spec fn pops(stack: Seq<u8>, level: u8) -> nat
    decreases stack.len(),
{
    if stack.len() > 0 && stack.last() >= level {
        1 + pops(stack.drop_last(), level)
    } else {
        0
    }
}

pub open spec fn closes(k: nat) -> Seq<RenderedView> {
    Seq::new(k, |i: int| RenderedView::SectionClose)
}

/// The event that stands for a formula: its HTML where KaTeX typesets it,
/// else the formula event itself.
pub open spec fn math_result(e: EventView) -> EventView {
    match e {
        EventView::InlineMath(tex) => match katex_inline(tex) {
            Some(h) => EventView::Html(h),
            None => e,
        },
        EventView::DisplayMath(tex) => match katex_display(tex) {
            Some(h) => EventView::Html(h),
            None => e,
        },
        _ => e,
    }
}

/// The pass's reaction to one event.
pub open spec fn step(s: SectionModel, e: EventView) -> SectionModel {
    match e {
        EventView::HeadingStart { level, id, classes, attrs } => {
            let counter = if id is Some { s.counter } else { s.counter + 1 };
            let the_id = match id {
                Some(x) => x,
                None => placeholder(counter),
            };
            let k = pops(s.stack, level);
            SectionModel {
                out: s.out + closes(k) + seq![
                    RenderedView::SectionOpen(the_id),
                    RenderedView::Event(EventView::HeadingStart { level, id: Some(the_id), classes, attrs }),
                ],
                stack: s.stack.take(s.stack.len() - k).push(level),
                in_header: true,
                level,
                plain: Seq::empty(),
                content: Seq::empty(),
                placeholder: if id is Some { None } else { Some(the_id) },
                counter,
                ..s
            }
        },
        EventView::HeadingEnd(_) => {
            let slug = slug_of(s.plain);
            SectionModel {
                out: s.out.push(RenderedView::Event(e)),
                toc: s.toc.push(HeaderView { level: s.level, text: html_of(s.content), id: slug }),
                id_map: match s.placeholder {
                    Some(p) => s.id_map.push((p, slug)),
                    None => s.id_map,
                },
                in_header: false,
                ..s
            }
        },
        EventView::Text(t) => {
            if s.in_header {
                SectionModel {
                    out: s.out.push(RenderedView::Event(e)),
                    plain: s.plain + t,
                    content: s.content.push(e),
                    ..s
                }
            } else {
                SectionModel { out: s.out.push(RenderedView::Event(e)), ..s }
            }
        },
        EventView::InlineMath(_) | EventView::DisplayMath(_) => {
            let r = math_result(e);
            SectionModel {
                out: s.out.push(RenderedView::Event(r)),
                content: if s.in_header { s.content.push(r) } else { s.content },
                ..s
            }
        },
        EventView::BlockQuoteStart(Some(k)) => SectionModel {
            out: s.out.push(RenderedView::Event(e)).push(RenderedView::Event(EventView::Html(banner(k)))),
            ..s
        },
        _ => SectionModel {
            out: s.out.push(RenderedView::Event(e)),
            content: if s.in_header { s.content.push(e) } else { s.content },
            ..s
        },
    }
}

/// The state after the pass has read `es`.
pub open spec fn run(es: Seq<EventView>) -> SectionModel
    decreases es.len(),
{
    if es.len() == 0 {
        initial_model()
    } else {
        step(run(es.drop_last()), es.last())
    }
}


struct Sectioner {
    out: Vec<Rendered>,
    toc: Vec<Header>,
    id_map: Vec<(String, String)>,
    stack: Vec<u8>,
    in_header: bool,
    level: u8,
    plain: String,
    /// Positions in `out` of the current heading's content.
    content_at: Vec<usize>,
    placeholder: Option<String>,
    counter: usize,
}

impl View for Sectioner {
    type V = SectionModel;

    closed spec fn view(&self) -> SectionModel {
        SectionModel {
            out: rviews(self.out@),
            toc: hviews(self.toc@),
            id_map: pair_views(self.id_map@),
            stack: self.stack@,
            in_header: self.in_header,
            level: self.level,
            plain: self.plain@,
            content: picked(rviews(self.out@), self.content_at@),
            placeholder: opt_view(self.placeholder),
            counter: self.counter as nat,
        }
    }
}

impl Sectioner {
    /// The content positions point at valid document events of the output.
    spec fn wf(&self) -> bool {
        picks_events(rviews(self.out@), self.content_at@)
    }

    fn new() -> (r: Sectioner)
        ensures
            r@ == initial_model(),
            r.wf(),
    {
        let r = Sectioner {
            out: Vec::new(),
            toc: Vec::new(),
            id_map: Vec::new(),
            stack: Vec::new(),
            in_header: false,
            level: 1,
            plain: String::new(),
            content_at: Vec::new(),
            placeholder: None,
            counter: 0,
        };
        assert(r@.out =~= Seq::empty());
        assert(r@.toc =~= Seq::empty());
        assert(r@.id_map =~= Seq::empty());
        assert(r@.content =~= Seq::empty());
        r
    }

    fn emit(&mut self, r: Rendered)
        requires
            old(self).wf(),
        ensures
            final(self)@ == (SectionModel { out: old(self)@.out.push(r@), ..old(self)@ }),
            final(self).wf(),
            final(self).counter == old(self).counter,
    {
        let ghost o0 = rviews(self.out@);
        self.out.push(r);
        assert(rviews(self.out@) =~= o0.push(r@));
        assert(picked(rviews(self.out@), self.content_at@) =~= picked(o0, self.content_at@));
    }

    /// Counts the event just emitted as part of the current heading.
    fn keep_last(&mut self)
        requires
            old(self).wf(),
            old(self).out@.len() > 0,
            rviews(old(self).out@).last() is Event,
            valid_event(rviews(old(self).out@).last()->Event_0),
        ensures
            final(self)@ == (SectionModel {
                content: old(self)@.content.push(rviews(old(self).out@).last()->Event_0),
                ..old(self)@
            }),
            final(self).wf(),
            final(self).counter == old(self).counter,
    {
        let ghost c0 = self.content_at@;
        self.content_at.push(self.out.len() - 1);
        assert(picked(rviews(self.out@), self.content_at@) =~= picked(rviews(self.out@), c0).push(
            rviews(self.out@).last()->Event_0,
        ));
    }

    fn heading_start(
        &mut self,
        level: u8,
        id: Option<String>,
        classes: Vec<String>,
        attrs: Vec<(String, Option<String>)>,
    )
        requires
            1 <= level <= 6,
            old(self).counter < usize::MAX,
            old(self).wf(),
        ensures
            final(self)@ == step(
                old(self)@,
                (MdEvent::HeadingStart { level, id, classes, attrs })@,
            ),
            final(self).counter <= old(self).counter + 1,
            final(self).wf(),
    {
        let ghost e = (MdEvent::HeadingStart { level, id, classes, attrs })@;
        let the_id: String;
        let given: bool;
        match id {
            Some(x) => {
                the_id = x;
                given = true;
            },
            None => {
                self.counter = self.counter + 1;
                the_id = make_placeholder(self.counter);
                given = false;
            },
        }
        let ghost s0 = self@;
        let ghost popped: nat = 0;
        assert(s0.out + closes(0) =~= s0.out);
        assert(s0.stack.take(s0.stack.len() as int) =~= s0.stack);
        while self.stack.len() > 0 && self.stack[self.stack.len() - 1] >= level
            invariant
                popped <= s0.stack.len(),
                self.wf(),
                self.counter == s0.counter,
                self@ == (SectionModel {
                    out: s0.out + closes(popped),
                    stack: s0.stack.take(s0.stack.len() - popped),
                    ..s0
                }),
                pops(s0.stack, level) == popped + pops(self.stack@, level),
            decreases self.stack.len(),
        {
            self.stack.pop();
            self.emit(Rendered::SectionClose);
            proof {
                assert(s0.out + closes(popped + 1) =~= (s0.out + closes(popped)).push(RenderedView::SectionClose));
                assert(s0.stack.take(s0.stack.len() - popped).drop_last() =~= s0.stack.take(s0.stack.len() - (popped + 1)));
                popped = popped + 1;
            }
        }
        self.stack.push(level);
        self.emit(Rendered::SectionOpen(the_id.clone()));
        self.emit(Rendered::Event(MdEvent::HeadingStart { level, id: Some(the_id.clone()), classes, attrs }));
        self.in_header = true;
        self.level = level;
        self.plain = String::new();
        self.content_at = Vec::new();
        self.placeholder = if given { None } else { Some(the_id) };
        proof {
            let t = step(old(self)@, e);
            assert(self@.out =~= t.out);
            assert(self@.stack =~= t.stack);
            assert(self@.content =~= t.content);
            assert(self@.plain =~= t.plain);
        }
    }

    fn heading_end(&mut self, e: MdEvent)
        requires
            e@ is HeadingEnd,
            valid_event(e@),
            old(self).wf(),
        ensures
            final(self)@ == step(old(self)@, e@),
            final(self).counter == old(self).counter,
            final(self).wf(),
    {
        let slug = title_to_slug(self.plain.as_str());
        let text = write_html(&self.out, &self.content_at);
        match &self.placeholder {
            Some(p) => {
                self.id_map.push((p.clone(), slug.clone()));
                assert(pair_views(self.id_map@) =~= pair_views(old(self).id_map@).push((p@, slug@)));
            },
            None => {},
        }
        self.toc.push(Header { level: self.level, text, id: slug });
        assert(hviews(self.toc@) =~= hviews(old(self).toc@).push(self.toc@.last()@));
        self.emit(Rendered::Event(e));
        self.in_header = false;
    }

    fn feed(&mut self, e: MdEvent)
        requires
            valid_event(e@),
            old(self).wf(),
            old(self).counter < usize::MAX,
        ensures
            final(self)@ == step(old(self)@, e@),
            final(self).wf(),
            final(self).counter <= old(self).counter + 1,
    {
        let ghost ev = e@;
        match e {
            MdEvent::HeadingStart { level, id, classes, attrs } => {
                self.heading_start(level, id, classes, attrs);
            },
            MdEvent::HeadingEnd(l) => {
                self.heading_end(MdEvent::HeadingEnd(l));
            },
            MdEvent::Text(t) => {
                if self.in_header {
                    self.plain.append(t.as_str());
                }
                self.emit(Rendered::Event(MdEvent::Text(t)));
                if self.in_header {
                    self.keep_last();
                }
            },
            MdEvent::InlineMath(tex) => {
                let r = match render_inline_math(tex.as_str()) {
                    Some(h) => MdEvent::Html(h),
                    None => MdEvent::InlineMath(tex),
                };
                self.emit(Rendered::Event(r));
                if self.in_header {
                    self.keep_last();
                }
            },
            MdEvent::DisplayMath(tex) => {
                let r = match render_display_math(tex.as_str()) {
                    Some(h) => MdEvent::Html(h),
                    None => MdEvent::DisplayMath(tex),
                };
                self.emit(Rendered::Event(r));
                if self.in_header {
                    self.keep_last();
                }
            },
            MdEvent::BlockQuoteStart(Some(k)) => {
                self.emit(Rendered::Event(MdEvent::BlockQuoteStart(Some(k))));
                self.emit(Rendered::Event(MdEvent::Html(alert_banner(k))));
            },
            other => {
                self.emit(Rendered::Event(other));
                if self.in_header {
                    self.keep_last();
                }
            },
        }
    }
}

/// The result of the heading and sectioning pass.
pub struct Sectioned {
    /// The transformed stream.
    pub events: Vec<Rendered>,
    /// The table of contents, in document order.
    pub toc: Vec<Header>,
    /// Placeholder ids with their slugs, in the order of their headings.
    pub id_map: Vec<(String, String)>,
    /// Levels of the sections left open at the end, outermost first.
    pub open_levels: Vec<u8>,
}

/// Runs the heading and sectioning pass over a document's events.
pub fn transform(events: Vec<MdEvent>) -> (r: Sectioned)
    requires
        valid_events(views(events@)),
    ensures
        rviews(r.events@) == run(views(events@)).out,
        hviews(r.toc@) == run(views(events@)).toc,
        pair_views(r.id_map@) == run(views(events@)).id_map,
        r.open_levels@ == run(views(events@)).stack,
{
    let ghost ev = events@;
    let ghost es = views(events@);
    let mut st = Sectioner::new();
    let n = events.len();
    for e in it: events
        invariant
            it.seq() == ev,
            ev.len() == n,
            es == views(ev),
            valid_events(es),
            st@ == run(es.take(it.index() as int)),
            st.wf(),
            st.counter <= it.index(),
    {
        let ghost i = it.index() as int;
        assert(es[i] == e@);
        st.feed(e);
        assert(es.take(i + 1).drop_last() =~= es.take(i));
    }
    assert(es.take(ev.len() as int) =~= es);
    Sectioned { events: st.out, toc: st.toc, id_map: st.id_map, open_levels: st.stack }
}

/// How many elements of `s` satisfy `f`.
pub open spec fn count<A>(s: Seq<A>, f: spec_fn(A) -> bool) -> nat
    decreases s.len(),
{
    if s.len() == 0 {
        0
    } else {
        count(s.drop_last(), f) + if f(s.last()) { 1nat } else { 0nat }
    }
}

pub proof fn lemma_count_add<A>(a: Seq<A>, b: Seq<A>, f: spec_fn(A) -> bool)
    ensures
        count(a + b, f) == count(a, f) + count(b, f),
    decreases b.len(),
{
    if b.len() > 0 {
        assert((a + b).drop_last() =~= a + b.drop_last());
        lemma_count_add(a, b.drop_last(), f);
    }
}

pub open spec fn is_heading_start(e: EventView) -> bool {
    e is HeadingStart
}

pub open spec fn is_heading_end(e: EventView) -> bool {
    e is HeadingEnd
}

pub open spec fn opens_heading(r: RenderedView) -> bool {
    r is Event && r->Event_0 is HeadingStart
}

pub open spec fn opens_section(r: RenderedView) -> bool {
    r is SectionOpen
}

pub open spec fn closes_section(r: RenderedView) -> bool {
    r is SectionClose
}

/// Heading starts among the input events.
pub open spec fn heading_starts(es: Seq<EventView>) -> nat {
    count(es, |e: EventView| is_heading_start(e))
}

/// Heading ends among the input events.
pub open spec fn heading_ends(es: Seq<EventView>) -> nat {
    count(es, |e: EventView| is_heading_end(e))
}

/// Heading starts in a rendered stream.
pub open spec fn heading_opens(rs: Seq<RenderedView>) -> nat {
    count(rs, |r: RenderedView| opens_heading(r))
}

/// Section starts in a rendered stream.
pub open spec fn section_opens(rs: Seq<RenderedView>) -> nat {
    count(rs, |r: RenderedView| opens_section(r))
}

/// Section ends in a rendered stream.
pub open spec fn section_closes(rs: Seq<RenderedView>) -> nat {
    count(rs, |r: RenderedView| closes_section(r))
}

/// Levels that never decrease from the bottom of the stack to its top.
pub open spec fn non_decreasing(st: Seq<u8>) -> bool {
    forall|i: int, j: int| 0 <= i <= j < st.len() ==> st[i] <= st[j]
}

proof fn lemma_closes_counts(k: nat)
    ensures
        section_closes(closes(k)) == k,
        section_opens(closes(k)) == 0,
        heading_opens(closes(k)) == 0,
    decreases k,
{
    if k > 0 {
        assert(closes(k).drop_last() =~= closes((k - 1) as nat));
        lemma_closes_counts((k - 1) as nat);
    }
}

proof fn lemma_pops_top(st: Seq<u8>, level: u8)
    ensures
        pops(st, level) <= st.len(),
        st.len() - pops(st, level) > 0 ==> st[st.len() - pops(st, level) - 1] < level,
    decreases st.len(),
{
    if st.len() > 0 && st.last() >= level {
        lemma_pops_top(st.drop_last(), level);
    }
}

proof fn lemma_small_counts(x: RenderedView, y: RenderedView)
    ensures
        section_opens(seq![x]) == (if opens_section(x) { 1nat } else { 0nat }),
        section_closes(seq![x]) == (if closes_section(x) { 1nat } else { 0nat }),
        heading_opens(seq![x]) == (if opens_heading(x) { 1nat } else { 0nat }),
        section_opens(seq![x, y]) == section_opens(seq![x]) + section_opens(seq![y]),
        section_closes(seq![x, y]) == section_closes(seq![x]) + section_closes(seq![y]),
        heading_opens(seq![x, y]) == heading_opens(seq![x]) + heading_opens(seq![y]),
{
    reveal_with_fuel(count, 2);
    assert(seq![x].drop_last() =~= Seq::<RenderedView>::empty());
    assert(seq![y].drop_last() =~= Seq::<RenderedView>::empty());
    assert(seq![x, y] =~= seq![x] + seq![y]);
    lemma_count_add(seq![x], seq![y], |r: RenderedView| opens_section(r));
    lemma_count_add(seq![x], seq![y], |r: RenderedView| closes_section(r));
    lemma_count_add(seq![x], seq![y], |r: RenderedView| opens_heading(r));
}

/// What the pass keeps true at every point: heading starts are passed on
/// and each opens one section, each heading end adds one entry to the table
/// of contents, every section opened is closed or still on the stack, and the
/// stack's levels never decrease from bottom to top.
pub proof fn lemma_run_invariants(es: Seq<EventView>)
    ensures
        heading_opens(run(es).out) == heading_starts(es),
        section_opens(run(es).out) == heading_starts(es),
        run(es).toc.len() == heading_ends(es),
        section_opens(run(es).out) == section_closes(run(es).out) + run(es).stack.len(),
        non_decreasing(run(es).stack),
    decreases es.len(),
{
    if es.len() > 0 {
        let p = es.drop_last();
        let e = es.last();
        lemma_run_invariants(p);
        let s = run(p);
        let t = run(es);
        assert(t == step(s, e));
        assert(heading_starts(es) == heading_starts(p) + if is_heading_start(e) { 1nat } else { 0nat });
        assert(heading_ends(es) == heading_ends(p) + if is_heading_end(e) { 1nat } else { 0nat });
        match e {
            EventView::HeadingStart { level, id, classes, attrs } => {
                let k = pops(s.stack, level);
                let the_id = match id {
                    Some(x) => x,
                    None => placeholder(if id is Some { s.counter } else { s.counter + 1 }),
                };
                let x = RenderedView::SectionOpen(the_id);
                let y = RenderedView::Event(EventView::HeadingStart { level, id: Some(the_id), classes, attrs });
                let extra = seq![x, y];
                assert(t.out == s.out + closes(k) + extra);
                lemma_closes_counts(k);
                lemma_small_counts(x, y);
                assert(opens_heading(y));
                assert(opens_section(x));
                lemma_small_counts(y, x);
                lemma_count_add(s.out, closes(k), |r: RenderedView| opens_section(r));
                lemma_count_add(s.out, closes(k), |r: RenderedView| closes_section(r));
                lemma_count_add(s.out, closes(k), |r: RenderedView| opens_heading(r));
                lemma_count_add(s.out + closes(k), extra, |r: RenderedView| opens_section(r));
                lemma_count_add(s.out + closes(k), extra, |r: RenderedView| closes_section(r));
                lemma_count_add(s.out + closes(k), extra, |r: RenderedView| opens_heading(r));
                assert(heading_opens(s.out + closes(k)) == heading_opens(s.out));
                assert(heading_opens(t.out) == heading_opens(s.out) + 1);
                assert(section_opens(t.out) == section_opens(s.out) + 1);
                assert(section_closes(t.out) == section_closes(s.out) + k);
                lemma_pops_top(s.stack, level);
                let kept = s.stack.take(s.stack.len() - k);
                assert forall|i: int, j: int| 0 <= i <= j < t.stack.len() implies t.stack[i] <= t.stack[j] by {
                    if j == t.stack.len() - 1 {
                        if i < j {
                            assert(t.stack[i] == s.stack[i]);
                            assert(s.stack[i] <= s.stack[kept.len() - 1]);
                        }
                    } else {
                        assert(t.stack[i] == s.stack[i]);
                        assert(t.stack[j] == s.stack[j]);
                    }
                }
            },
            EventView::BlockQuoteStart(Some(kind)) => {
                let x = RenderedView::Event(e);
                let y = RenderedView::Event(EventView::Html(banner(kind)));
                assert(t.out == s.out + seq![x, y]);
                lemma_small_counts(x, y);
                lemma_small_counts(y, x);
                lemma_count_add(s.out, seq![x, y], |r: RenderedView| opens_section(r));
                lemma_count_add(s.out, seq![x, y], |r: RenderedView| closes_section(r));
                lemma_count_add(s.out, seq![x, y], |r: RenderedView| opens_heading(r));
            },
            _ => {
                let x = t.out.last();
                assert(t.out == s.out.push(x));
                assert(!opens_heading(x));
                assert(t.out =~= s.out + seq![x]);
                lemma_small_counts(x, x);
                lemma_count_add(s.out, seq![x], |r: RenderedView| opens_section(r));
                lemma_count_add(s.out, seq![x], |r: RenderedView| closes_section(r));
                lemma_count_add(s.out, seq![x], |r: RenderedView| opens_heading(r));
                assert(heading_opens(t.out) == heading_opens(s.out));
                assert(section_opens(t.out) == section_opens(s.out));
                assert(section_closes(t.out) == section_closes(s.out));
            },
        }
    }
}

/// For a document in which every heading that starts also ends, the table
/// of contents has one entry for each heading start in the output, and one
/// for each section opened.
pub proof fn lemma_toc_matches_headings(es: Seq<EventView>)
    requires
        heading_starts(es) == heading_ends(es),
    ensures
        run(es).toc.len() == heading_opens(run(es).out),
        run(es).toc.len() == section_opens(run(es).out),
{
    lemma_run_invariants(es);
}

/// Section markers balance: the sections opened are those closed in the
/// stream plus those left on the stack, which the final HTML closes.
pub proof fn lemma_sections_balance(es: Seq<EventView>)
    ensures
        section_opens(run(es).out) == section_closes(run(es).out) + run(es).stack.len(),
{
    lemma_run_invariants(es);
}

/// The levels on the section stack never decrease from bottom to top, after
/// any prefix of any document.
pub proof fn lemma_stack_non_decreasing(es: Seq<EventView>)
    ensures
        non_decreasing(run(es).stack),
{
    lemma_run_invariants(es);
}

/// A formula that KaTeX cannot typeset is passed on unchanged, and the pass
/// goes on.
pub proof fn lemma_math_fallback(s: SectionModel, e: EventView)
    requires
        e is InlineMath ==> katex_inline(e->InlineMath_0) is None,
        e is DisplayMath ==> katex_display(e->DisplayMath_0) is None,
        e is InlineMath || e is DisplayMath,
    ensures
        step(s, e).out == s.out.push(RenderedView::Event(e)),
        s.in_header ==> step(s, e).content == s.content.push(e),
{
}

} // verus!
