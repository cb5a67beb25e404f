//! The code block pass: gathers the text of each code block and puts the
//! block back as one piece of HTML, highlighted where a highlighting was
//! found and escaped otherwise.

use vstd::prelude::*;
use crate::events::{EventView, MdEvent, opt_view};
use crate::sections::{Rendered, RenderedView, closes_section, heading_opens, opens_heading, opens_section, rviews, section_closes, section_opens};
use crate::text::{escape_html, escaped};

verus! {

/// A code block's language tag and text.
pub struct CodeBlock {
    pub lang: String,
    pub code: String,
}

pub open spec fn block_views(bs: Seq<CodeBlock>) -> Seq<(Seq<char>, Seq<char>)> {
    bs.map_values(|b: CodeBlock| (b.lang@, b.code@))
}

/// The HTML of a code block: a `<pre>` holding a label with the language
/// tag and a `<code>` element with the highlighted fragment, or with the
/// escaped text where there is none.
pub open spec fn code_html(lang: Seq<char>, code: Seq<char>, highlighted: Option<Seq<char>>) -> Seq<char> {
    "<pre><span class=\"language-tag\">."@ + lang + "</span><code class=\"language-"@ + lang + "\">"@
        + match highlighted {
        Some(h) => h,
        None => escaped(code),
    } + "</code></pre>"@
}

/// Builds the HTML of a code block from its language tag, its text and the
/// highlighter's result for it.
pub fn code_block_html(lang: &str, code: &str, highlighted: Option<String>) -> (r: String)
    ensures
        r@ == code_html(lang@, code@, opt_view(highlighted)),
{
    let mut s = String::from_str("<pre><span class=\"language-tag\">.");
    s.append(lang);
    s.append("</span><code class=\"language-");
    s.append(lang);
    s.append("\">");
    match highlighted {
        Some(h) => s.append(h.as_str()),
        None => {
            let e = escape_html(code);
            s.append(e.as_str());
        },
    }
    s.append("</code></pre>");
    s
}

pub struct CodeModel {
    pub out: Seq<RenderedView>,
    pub in_code: bool,
    pub lang: Seq<char>,
    pub buf: Seq<char>,
    /// The blocks finished so far.
    pub blocks: Seq<(Seq<char>, Seq<char>)>,
}

pub open spec fn code_step(s: CodeModel, r: RenderedView, hs: Seq<Option<Seq<char>>>) -> CodeModel {
    match r {
        RenderedView::Event(EventView::CodeBlockStart(lang)) => CodeModel {
            in_code: true,
            lang: match lang {
                Some(l) => l,
                None => Seq::empty(),
            },
            buf: Seq::empty(),
            ..s
        },
        RenderedView::Event(EventView::Text(t)) => {
            if s.in_code {
                CodeModel { buf: s.buf + t, ..s }
            } else {
                CodeModel { out: s.out.push(r), ..s }
            }
        },
        RenderedView::Event(EventView::CodeBlockEnd) => {
            let k = s.blocks.len();
            let h = if k < hs.len() { hs[k as int] } else { None };
            CodeModel {
                out: s.out.push(RenderedView::Event(EventView::Html(code_html(s.lang, s.buf, h)))),
                in_code: false,
                buf: Seq::empty(),
                blocks: s.blocks.push((s.lang, s.buf)),
                ..s
            }
        },
        _ => CodeModel { out: s.out.push(r), ..s },
    }
}

pub open spec fn code_run(rs: Seq<RenderedView>, hs: Seq<Option<Seq<char>>>) -> CodeModel
    decreases rs.len(),
{
    if rs.len() == 0 {
        CodeModel { out: Seq::empty(), in_code: false, lang: Seq::empty(), buf: Seq::empty(), blocks: Seq::empty() }
    } else {
        code_step(code_run(rs.drop_last(), hs), rs.last(), hs)
    }
}

pub open spec fn opt_views(hs: Seq<Option<String>>) -> Seq<Option<Seq<char>>> {
    hs.map_values(|h: Option<String>| opt_view(h))
}

/// The code blocks of a stream, as language tag and text, in order.
pub fn code_blocks(events: &Vec<Rendered>) -> (r: Vec<CodeBlock>)
    ensures
        block_views(r@) == code_run(rviews(events@), Seq::empty()).blocks,
{
    let ghost rs = rviews(events@);
    let ghost hs = Seq::<Option<Seq<char>>>::empty();
    let mut blocks: Vec<CodeBlock> = Vec::new();
    let mut in_code = false;
    let mut lang = String::new();
    let mut buf = String::new();
    let mut i: usize = 0;
    while i < events.len()
        invariant
            rs == rviews(events@),
            i <= events.len(),
            ({
                let m = code_run(rs.take(i as int), hs);
                &&& in_code == m.in_code
                &&& lang@ == m.lang
                &&& buf@ == m.buf
                &&& block_views(blocks@) == m.blocks
            }),
        decreases events.len() - i,
    {
        let ghost m0 = code_run(rs.take(i as int), hs);
        let ghost blocks0 = blocks@;
        assert(rs[i as int] == events@[i as int]@);
        assert(rs.take(i as int + 1).drop_last() =~= rs.take(i as int));
        match &events[i] {
            Rendered::Event(MdEvent::CodeBlockStart(l)) => {
                in_code = true;
                lang = match l {
                    Some(x) => x.clone(),
                    None => String::new(),
                };
                buf = String::new();
            },
            Rendered::Event(MdEvent::Text(t)) if in_code => {
                buf.append(t.as_str());
            },
            Rendered::Event(MdEvent::CodeBlockEnd) => {
                blocks.push(CodeBlock { lang: lang.clone(), code: buf.clone() });
                in_code = false;
                buf = String::new();
                assert(block_views(blocks@) =~= block_views(blocks0).push((m0.lang, m0.buf)));
            },
            _ => {},
        }
        i = i + 1;
    }
    assert(rs.take(events.len() as int) =~= rs);
    blocks
}

fn push_rendered(out: &mut Vec<Rendered>, r: Rendered)
    ensures
        rviews(final(out)@) == rviews(old(out)@).push(r@),
{
    out.push(r);
    assert(rviews(out@) =~= rviews(old(out)@).push(r@));
}

/// Runs the code block pass; the `k`-th block takes its highlighting from
/// `highlighted[k]`, and is escaped where that is `None` or missing.
pub fn code_pass(events: Vec<Rendered>, highlighted: &Vec<Option<String>>) -> (r: Vec<Rendered>)
    ensures
        rviews(r@) == code_run(rviews(events@), opt_views(highlighted@)).out,
{
    let ghost ev = events@;
    let ghost rs = rviews(events@);
    let ghost hs = opt_views(highlighted@);
    let mut out: Vec<Rendered> = Vec::new();
    let mut in_code = false;
    let mut lang = String::new();
    let mut buf = String::new();
    let mut k: usize = 0;
    let n = events.len();
    for r in it: events
        invariant
            it.seq() == ev,
            ev.len() == n,
            rs == rviews(ev),
            hs == opt_views(highlighted@),
            ({
                let m = code_run(rs.take(it.index() as int), hs);
                &&& rviews(out@) == m.out
                &&& in_code == m.in_code
                &&& lang@ == m.lang
                &&& buf@ == m.buf
                &&& k as nat == m.blocks.len()
            }),
            k <= it.index(),
    {
        let ghost i = it.index() as int;
        assert(rs[i] == r@);
        assert(rs.take(i + 1).drop_last() =~= rs.take(i));
        match r {
            Rendered::Event(MdEvent::CodeBlockStart(l)) => {
                in_code = true;
                lang = match l {
                    Some(x) => x,
                    None => String::new(),
                };
                buf = String::new();
            },
            Rendered::Event(MdEvent::Text(t)) => {
                if in_code {
                    buf.append(t.as_str());
                } else {
                    push_rendered(&mut out, Rendered::Event(MdEvent::Text(t)));
                }
            },
            Rendered::Event(MdEvent::CodeBlockEnd) => {
                let h = if k < highlighted.len() {
                    match &highlighted[k] {
                        Some(x) => Some(x.clone()),
                        None => None,
                    }
                } else {
                    None
                };
                proof {
                    if k < highlighted.len() {
                        assert(hs[k as int] == opt_view(highlighted@[k as int]));
                    }
                }
                let html = code_block_html(lang.as_str(), buf.as_str(), h);
                push_rendered(&mut out, Rendered::Event(MdEvent::Html(html)));
                in_code = false;
                buf = String::new();
                k = k + 1;
            },
            other => {
                push_rendered(&mut out, other);
            },
        }
    }
    assert(rs.take(ev.len() as int) =~= rs);
    out
}

/// The code block pass leaves the section markers and heading starts of a
/// stream as they are: it only takes out code block starts and the text of
/// code blocks, and puts raw HTML for each block end.
pub proof fn lemma_code_pass_keeps_structure(rs: Seq<RenderedView>, hs: Seq<Option<Seq<char>>>)
    ensures
        section_opens(code_run(rs, hs).out) == section_opens(rs),
        section_closes(code_run(rs, hs).out) == section_closes(rs),
        heading_opens(code_run(rs, hs).out) == heading_opens(rs),
    decreases rs.len(),
{
    if rs.len() > 0 {
        let p = rs.drop_last();
        let r = rs.last();
        lemma_code_pass_keeps_structure(p, hs);
        let m0 = code_run(p, hs);
        let m = code_run(rs, hs);
        assert(m == code_step(m0, r, hs));
        if m.out.len() == m0.out.len() {
            assert(m.out == m0.out);
            assert(!opens_section(r) && !closes_section(r) && !opens_heading(r));
        } else {
            assert(m.out == m0.out.push(m.out.last()));
            assert(m.out.drop_last() =~= m0.out);
            assert(opens_section(m.out.last()) == opens_section(r));
            assert(closes_section(m.out.last()) == closes_section(r));
            assert(opens_heading(m.out.last()) == opens_heading(r));
        }
    }
}

/// A block with no highlighting keeps its text, escaped and unstyled, in
/// the same `<pre>` and `<code>` wrapper that a highlighted block gets.
pub proof fn lemma_unhighlighted_block(s: CodeModel, hs: Seq<Option<Seq<char>>>, other: Seq<char>)
    requires
        s.blocks.len() < hs.len() ==> hs[s.blocks.len() as int] is None,
    ensures
        code_step(s, RenderedView::Event(EventView::CodeBlockEnd), hs).out
            == s.out.push(RenderedView::Event(EventView::Html(code_html(s.lang, s.buf, None)))),
        code_html(s.lang, s.buf, None) == code_html(s.lang, other, Some(escaped(s.buf))),
{
}

} // verus!
