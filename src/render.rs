//! Puts the passes together: markdown text in, table of contents and HTML out.

use vstd::prelude::*;
use crate::code::{CodeBlock, block_views, code_blocks, code_pass, code_run, lemma_code_pass_keeps_structure, opt_views};
use crate::events::{EventView, MdEvent, html_of, opt_view, parse_events, parsed, picked, picks_events, valid_event, valid_events, views, write_html};
use crate::highlight::{Highlighter, highlighted_of};
use crate::sections::{Header, Rendered, RenderedView, heading_ends, heading_opens, heading_starts, hviews, lemma_run_invariants, pair_views, run, rviews, section_closes, section_opens, transform};
use crate::text::{chars_of, push_char};

verus! {

/// The marker that opens a section.
pub open spec fn open_marker(id: Seq<char>) -> Seq<char> {
    "<section id="@ + id + ">\n"@
}

/// The marker that closes a section.
pub open spec fn close_marker() -> Seq<char> {
    "</section>\n"@
}

/// A rendered event as a document event: section markers become raw HTML.
pub open spec fn lower(r: RenderedView) -> EventView {
    match r {
        RenderedView::Event(e) => e,
        RenderedView::SectionOpen(id) => EventView::Html(open_marker(id)),
        RenderedView::SectionClose => EventView::Html(close_marker()),
    }
}

pub open spec fn lowered(rs: Seq<RenderedView>) -> Seq<EventView> {
    rs.map_values(|r: RenderedView| lower(r))
}

/// Every document event in a rendered stream has a heading level of 1 to 6.
pub open spec fn valid_rendered(rs: Seq<RenderedView>) -> bool {
    forall|i: int| 0 <= i < rs.len() ==> (#[trigger] rs[i] is Event ==> valid_event(rs[i]->Event_0))
}

/// Whether `p` occurs in `h` at position `i`.
pub open spec fn matches_at(h: Seq<char>, p: Seq<char>, i: int) -> bool {
    0 <= i && i + p.len() <= h.len() && h.subrange(i, i + p.len()) == p
}

/// The first position, from `k` on, at which `p` occurs in `h`.
pub open spec fn first_match_from(h: Seq<char>, p: Seq<char>, k: int) -> Option<int>
    decreases h.len() + 1 - k,
{
    if k < 0 || k + p.len() > h.len() {
        None
    } else if matches_at(h, p, k) {
        Some(k)
    } else {
        first_match_from(h, p, k + 1)
    }
}

/// `h` with the first occurrence of `p` replaced by `r`, or `h` itself where
/// `p` does not occur.
pub open spec fn replace_first(h: Seq<char>, p: Seq<char>, r: Seq<char>) -> Seq<char> {
    match first_match_from(h, p, 0) {
        Some(i) => h.take(i) + r + h.skip(i + p.len()),
        None => h,
    }
}

/// Applies each (placeholder, slug) pair in order, replacing the first
/// occurrence of the placeholder only.
pub open spec fn resolve(h: Seq<char>, m: Seq<(Seq<char>, Seq<char>)>) -> Seq<char>
    decreases m.len(),
{
    if m.len() == 0 {
        h
    } else {
        replace_first(resolve(h, m.drop_last()), m.last().0, m.last().1)
    }
}

/// `n` closing markers.
pub open spec fn close_markers(n: nat) -> Seq<char>
    decreases n,
{
    if n == 0 {
        Seq::empty()
    } else {
        close_markers((n - 1) as nat) + close_marker()
    }
}

/// The final HTML: the stream written out, placeholders resolved, and one
/// closing marker for each section still open.
pub open spec fn body_of(rs: Seq<RenderedView>, m: Seq<(Seq<char>, Seq<char>)>, open: nat) -> Seq<char> {
    resolve(html_of(lowered(rs)), m) + close_markers(open)
}

/// The section markers as raw HTML events, every other event as it is.
pub fn lower_events(rs: Vec<Rendered>) -> (r: Vec<Rendered>)
    ensures
        r@.len() == rs@.len(),
        forall|j: int| 0 <= j < r@.len() ==> #[trigger] rviews(r@)[j] == RenderedView::Event(lowered(rviews(rs@))[j]),
{
    let ghost ev = rs@;
    let mut out: Vec<Rendered> = Vec::new();
    for x in it: rs
        invariant
            it.seq() == ev,
            out@.len() == it.index(),
            forall|j: int| 0 <= j < out@.len() ==> #[trigger] rviews(out@)[j] == RenderedView::Event(lowered(rviews(ev))[j]),
    {
        let ghost i = it.index() as int;
        assert(lowered(rviews(ev))[i] == lower(ev[i]@));
        let e = match x {
            Rendered::Event(e) => e,
            Rendered::SectionOpen(id) => {
                let mut s = String::from_str("<section id=");
                s.append(id.as_str());
                s.append(">\n");
                MdEvent::Html(s)
            },
            Rendered::SectionClose => MdEvent::Html(String::from_str("</section>\n")),
        };
        let ghost o0 = out@;
        out.push(Rendered::Event(e));
        assert forall|j: int| 0 <= j < out@.len() implies #[trigger] rviews(out@)[j] == RenderedView::Event(lowered(rviews(ev))[j]) by {
            if j < o0.len() {
                assert(out@[j] == o0[j]);
                assert(rviews(o0)[j] == RenderedView::Event(lowered(rviews(ev))[j]));
            }
        }
    }
    out
}

fn matches_here(h: &Vec<char>, p: &Vec<char>, k: usize) -> (r: bool)
    requires
        k + p.len() <= h.len(),
    ensures
        r == matches_at(h@, p@, k as int),
{
    let mut j: usize = 0;
    while j < p.len()
        invariant
            j <= p.len(),
            k + p.len() <= h.len(),
            forall|t: int| 0 <= t < j ==> h@[k + t] == p@[t],
        decreases p.len() - j,
    {
        if h[k + j] != p[j] {
            assert(h@.subrange(k as int, k + p.len())[j as int] != p@[j as int]);
            return false;
        }
        j = j + 1;
    }
    assert(h@.subrange(k as int, k + p.len()) =~= p@);
    true
}

fn push_range(s: &mut String, cs: &Vec<char>, from: usize, to: usize)
    requires
        from <= to <= cs.len(),
    ensures
        final(s)@ == old(s)@ + cs@.subrange(from as int, to as int),
{
    let mut i: usize = from;
    while i < to
        invariant
            from <= i <= to,
            to <= cs.len(),
            s@ == old(s)@ + cs@.subrange(from as int, i as int),
        decreases to - i,
    {
        push_char(s, cs[i]);
        i = i + 1;
        assert(s@ =~= old(s)@ + cs@.subrange(from as int, i as int));
    }
}

/// Replaces the first occurrence of `pattern` in `text` with `replacement`.
pub fn replace_first_occurrence(text: &str, pattern: &str, replacement: &str) -> (r: String)
    ensures
        r@ == replace_first(text@, pattern@, replacement@),
{
    let h = chars_of(text);
    let p = chars_of(pattern);
    if p.len() <= h.len() {
        let last = h.len() - p.len();
        let mut k: usize = 0;
        loop
            invariant
                h@ == text@,
                p@ == pattern@,
                last + p.len() == h.len(),
                k <= last,
                first_match_from(h@, p@, 0) == first_match_from(h@, p@, k as int),
            decreases last - k,
        {
            if matches_here(&h, &p, k) {
                let mut s = String::new();
                push_range(&mut s, &h, 0, k);
                s.append(replacement);
                push_range(&mut s, &h, k + p.len(), h.len());
                assert(h@.subrange(0, k as int) =~= h@.take(k as int));
                assert(h@.subrange(k + p.len(), h.len() as int) =~= h@.skip(k + p.len()));
                return s;
            }
            if k == last {
                assert(first_match_from(h@, p@, k as int + 1) is None);
                return String::from_str(text);
            }
            k = k + 1;
        }
    }
    String::from_str(text)
}

/// Resolves placeholders: for each pair in order, the first occurrence of
/// the placeholder is replaced by its slug.
pub fn resolve_ids(html: String, id_map: &Vec<(String, String)>) -> (r: String)
    ensures
        r@ == resolve(html@, pair_views(id_map@)),
{
    let ghost m = pair_views(id_map@);
    let mut h = html;
    let mut i: usize = 0;
    while i < id_map.len()
        invariant
            m == pair_views(id_map@),
            i <= id_map.len(),
            h@ == resolve(html@, m.take(i as int)),
        decreases id_map.len() - i,
    {
        let (p, s) = &id_map[i];
        assert(m.take(i as int + 1).drop_last() =~= m.take(i as int));
        assert(m[i as int] == (p@, s@));
        h = replace_first_occurrence(h.as_str(), p.as_str(), s.as_str());
        i = i + 1;
    }
    assert(m.take(id_map.len() as int) =~= m);
    h
}

/// Writes a rendered stream as HTML, resolves its placeholders and closes
/// the sections left open.
pub fn finish_html(rs: Vec<Rendered>, id_map: &Vec<(String, String)>, open: usize) -> (r: String)
    requires
        valid_rendered(rviews(rs@)),
    ensures
        r@ == body_of(rviews(rs@), pair_views(id_map@), open as nat),
{
    let ghost lv = lowered(rviews(rs@));
    let lowered_events = lower_events(rs);
    let mut at: Vec<usize> = Vec::new();
    let mut k: usize = 0;
    while k < lowered_events.len()
        invariant
            k <= lowered_events.len(),
            at@.len() == k,
            forall|j: int| 0 <= j < k ==> #[trigger] at@[j] == j,
        decreases lowered_events.len() - k,
    {
        at.push(k);
        k = k + 1;
    }
    assert(picks_events(rviews(lowered_events@), at@)) by {
        assert forall|j: int| 0 <= j < at@.len() implies {
            &&& #[trigger] at@[j] < rviews(lowered_events@).len()
            &&& rviews(lowered_events@)[at@[j] as int] is Event
            &&& valid_event(rviews(lowered_events@)[at@[j] as int]->Event_0)
        } by {
            assert(rviews(lowered_events@)[j] == RenderedView::Event(lv[j]));
        }
    }
    assert(picked(rviews(lowered_events@), at@) =~= lv) by {
        assert forall|j: int| 0 <= j < lv.len() implies picked(rviews(lowered_events@), at@)[j] == lv[j] by {
            assert(rviews(lowered_events@)[j] == RenderedView::Event(lv[j]));
        }
    }
    let html = write_html(&lowered_events, &at);
    let mut body = resolve_ids(html, id_map);
    let ghost b0 = body@;
    let mut n: usize = 0;
    while n < open
        invariant
            n <= open,
            body@ == b0 + close_markers(n as nat),
        decreases open - n,
    {
        body.append("</section>\n");
        n = n + 1;
        assert(body@ =~= b0 + close_markers(n as nat));
    }
    body
}

proof fn lemma_run_valid(es: Seq<EventView>)
    requires
        valid_events(es),
    ensures
        valid_rendered(run(es).out),
    decreases es.len(),
{
    if es.len() > 0 {
        let p = es.drop_last();
        assert(valid_events(p)) by {
            assert forall|i: int| 0 <= i < p.len() implies valid_event(#[trigger] p[i]) by {
                assert(p[i] == es[i]);
            }
        }
        lemma_run_valid(p);
        let s0 = run(p);
        let o = run(es).out;
        assert(valid_event(es.last()));
        assert forall|i: int| 0 <= i < o.len() && #[trigger] o[i] is Event implies valid_event(o[i]->Event_0) by {
            if i < s0.out.len() {
                assert(o[i] == s0.out[i]);
            }
        }
    }
}

proof fn lemma_code_valid(rs: Seq<RenderedView>, hs: Seq<Option<Seq<char>>>)
    requires
        valid_rendered(rs),
    ensures
        valid_rendered(code_run(rs, hs).out),
    decreases rs.len(),
{
    if rs.len() > 0 {
        let p = rs.drop_last();
        assert(valid_rendered(p)) by {
            assert forall|i: int| 0 <= i < p.len() && #[trigger] p[i] is Event implies valid_event(p[i]->Event_0) by {
                assert(p[i] == rs[i]);
            }
        }
        lemma_code_valid(p, hs);
        let m0 = code_run(p, hs);
        let o = code_run(rs, hs).out;
        assert(rs.last() == rs[rs.len() - 1]);
        assert forall|i: int| 0 <= i < o.len() && #[trigger] o[i] is Event implies valid_event(o[i]->Event_0) by {
            if i < m0.out.len() {
                assert(o[i] == m0.out[i]);
            }
        }
    }
}

/// The code blocks of a rendered stream, as (language tag, text) pairs.
pub open spec fn blocks_of(rs: Seq<RenderedView>) -> Seq<(Seq<char>, Seq<char>)> {
    code_run(rs, Seq::empty()).blocks
}

/// What the highlighter gives for each block.
pub open spec fn highlights_for(blocks: Seq<(Seq<char>, Seq<char>)>) -> Seq<Option<Seq<char>>> {
    blocks.map_values(|b: (Seq<char>, Seq<char>)| highlighted_of(b.0, b.1))
}

/// The HTML of a document's events for given highlighting results.
pub open spec fn rendered_body(es: Seq<EventView>, hs: Seq<Option<Seq<char>>>) -> Seq<char> {
    let s = run(es);
    body_of(code_run(s.out, hs).out, s.id_map, s.stack.len())
}

/// The HTML of a document's events with each code block highlighted by the
/// highlighter.
pub open spec fn highlighted_body(es: Seq<EventView>) -> Seq<char> {
    rendered_body(es, highlights_for(blocks_of(run(es).out)))
}

/// Renders a document's events for given highlighting results: the `k`-th
/// code block takes `highlighted[k]`, and is escaped where that is `None`.
pub fn render_with_highlights(events: Vec<MdEvent>, highlighted: &Vec<Option<String>>) -> (r: (Vec<Header>, String))
    requires
        valid_events(views(events@)),
    ensures
        hviews(r.0@) == run(views(events@)).toc,
        r.1@ == rendered_body(views(events@), opt_views(highlighted@)),
{
    let ghost es = views(events@);
    let sec = transform(events);
    proof {
        lemma_run_valid(es);
        lemma_code_valid(rviews(sec.events@), opt_views(highlighted@));
    }
    let out = code_pass(sec.events, highlighted);
    let body = finish_html(out, &sec.id_map, sec.open_levels.len());
    (sec.toc, body)
}

/// Renders a document's events: sectioned HTML and the table of contents,
/// each code block highlighted by `highlighter` for its text and language
/// tag, or escaped where it gives nothing.
pub fn render_events(events: Vec<MdEvent>, highlighter: &Highlighter) -> (r: (Vec<Header>, String))
    requires
        valid_events(views(events@)),
    ensures
        hviews(r.0@) == run(views(events@)).toc,
        r.1@ == highlighted_body(views(events@)),
{
    let ghost es = views(events@);
    let sec = transform(events);
    let blocks = code_blocks(&sec.events);
    let ghost bs = block_views(blocks@);
    let mut hs: Vec<Option<String>> = Vec::new();
    let mut k: usize = 0;
    while k < blocks.len()
        invariant
            k <= blocks.len(),
            bs == block_views(blocks@),
            opt_views(hs@) == highlights_for(bs).take(k as int),
        decreases blocks.len() - k,
    {
        let b: &CodeBlock = &blocks[k];
        let h = highlighter.parse_html_with_class_style_with_code_extension(b.code.as_str(), b.lang.as_str());
        let ghost h0 = hs@;
        hs.push(h);
        assert(bs[k as int] == (blocks@[k as int].lang@, blocks@[k as int].code@));
        assert(opt_views(hs@) =~= opt_views(h0).push(opt_view(h)));
        assert(highlights_for(bs).take(k as int + 1) =~= highlights_for(bs).take(k as int).push(highlights_for(bs)[k as int]));
        k = k + 1;
    }
    assert(highlights_for(bs).take(blocks.len() as int) =~= highlights_for(bs));
    proof {
        lemma_run_valid(es);
        lemma_code_valid(rviews(sec.events@), opt_views(hs@));
    }
    let out = code_pass(sec.events, &hs);
    let body = finish_html(out, &sec.id_map, sec.open_levels.len());
    (sec.toc, body)
}

/// Renders markdown text: the table of contents, and HTML in which each
/// heading opens a section nested by level and each code block is
/// highlighted by `highlighter`. There is one entry in the table of contents
/// for each heading start and each section opened in the stream that is
/// written out.
pub fn parse_markdown(html_text: &str, highlighter: &Highlighter) -> (r: (Vec<Header>, String))
    ensures
        hviews(r.0@) == run(parsed(html_text@)).toc,
        r.0@.len() == heading_opens(run(parsed(html_text@)).out),
        r.0@.len() == section_opens(run(parsed(html_text@)).out),
        r.1@ == highlighted_body(parsed(html_text@)),
{
    let events = parse_events(html_text);
    proof {
        lemma_run_invariants(views(events@));
    }
    render_events(events, highlighter)
}

/// In the stream that is written out, whatever the highlighting: for a
/// document in which every heading that starts also ends, the table of
/// contents has one entry per heading start and per section opened; and the
/// sections opened are those closed in the stream plus those that the final
/// HTML closes at its end.
pub proof fn lemma_written_stream(es: Seq<EventView>, hs: Seq<Option<Seq<char>>>)
    ensures
        heading_starts(es) == heading_ends(es) ==> run(es).toc.len() == heading_opens(code_run(run(es).out, hs).out),
        heading_starts(es) == heading_ends(es) ==> run(es).toc.len() == section_opens(code_run(run(es).out, hs).out),
        section_opens(code_run(run(es).out, hs).out) == section_closes(code_run(run(es).out, hs).out) + run(es).stack.len(),
{
    lemma_run_invariants(es);
    lemma_code_pass_keeps_structure(run(es).out, hs);
}

} // verus!
