//! The markdown preview shown while a post is edited: headings get slug
//! ids, and code blocks are set aside under ids of their own so that they
//! can be highlighted later.

use vstd::prelude::*;
use crate::code::CodeBlock;
use crate::events::{EventView, MdEvent, html_of, opt_view, parse_events_basic, parsed_basic, valid_event, valid_events, views, write_events};
use crate::sections::{Header, HeaderView, hviews, pair_views, placeholder, make_placeholder};
use crate::slug::{slug_of, title_to_slug};
use crate::text::{decimal, lemma_decimal_injective, push_decimal};

verus! {

/// State of the heading pass of the preview.
pub struct PreviewModel {
    pub out: Seq<EventView>,
    pub toc: Seq<HeaderView>,
    pub id_map: Seq<(Seq<char>, Seq<char>)>,
    pub in_header: bool,
    pub level: u8,
    pub plain: Seq<char>,
    pub counter: nat,
}

/// Headings without an id get the next placeholder; at a heading's end the
/// slug of its text is recorded for the current placeholder, and the table
/// of contents takes the heading's plain text.
pub open spec fn preview_step(s: PreviewModel, e: EventView) -> PreviewModel {
    match e {
        EventView::HeadingStart { level, id, classes, attrs } => {
            let counter = if id is Some { s.counter } else { s.counter + 1 };
            let the_id = match id {
                Some(x) => x,
                None => placeholder(counter),
            };
            PreviewModel {
                out: s.out.push(EventView::HeadingStart { level, id: Some(the_id), classes, attrs }),
                in_header: true,
                level,
                plain: Seq::empty(),
                counter,
                ..s
            }
        },
        EventView::HeadingEnd(_) => {
            let slug = slug_of(s.plain);
            PreviewModel {
                out: s.out.push(e),
                toc: s.toc.push(HeaderView { level: s.level, text: s.plain, id: slug }),
                id_map: s.id_map.push((placeholder(s.counter), slug)),
                in_header: false,
                ..s
            }
        },
        EventView::Text(t) => PreviewModel {
            out: s.out.push(e),
            plain: if s.in_header { s.plain + t } else { s.plain },
            ..s
        },
        _ => PreviewModel { out: s.out.push(e), ..s },
    }
}

pub open spec fn preview_run(es: Seq<EventView>) -> PreviewModel
    decreases es.len(),
{
    if es.len() == 0 {
        PreviewModel {
            out: Seq::empty(),
            toc: Seq::empty(),
            id_map: Seq::empty(),
            in_header: false,
            level: 1,
            plain: Seq::empty(),
            counter: 0,
        }
    } else {
        preview_step(preview_run(es.drop_last()), es.last())
    }
}

/// The slug recorded last for `key`, if any.
pub open spec fn lookup(m: Seq<(Seq<char>, Seq<char>)>, key: Seq<char>) -> Option<Seq<char>>
    decreases m.len(),
{
    if m.len() == 0 {
        None
    } else if m.last().0 == key {
        Some(m.last().1)
    } else {
        lookup(m.drop_last(), key)
    }
}

/// The id under which the `n`-th code block is set aside.
pub open spec fn block_id(n: nat) -> Seq<char> {
    "codeblock-id-"@ + decimal(n)
}

/// The HTML that stands for a code block in the preview: its raw text in a
/// `<pre>` carrying the block's id.
pub open spec fn preview_code_html(id: Seq<char>, lang: Seq<char>, code: Seq<char>) -> Seq<char> {
    "<pre id=\""@ + id + "\"><code class=\"language-"@ + lang + "\">"@ + code + "</code></pre>"@
}

/// State of the second pass of the preview.
pub struct BlockModel {
    pub out: Seq<EventView>,
    pub in_code: bool,
    pub lang: Seq<char>,
    pub buf: Seq<char>,
    pub blocks: Seq<(Seq<char>, (Seq<char>, Seq<char>))>,
}

/// Heading ids are replaced by their recorded slugs; each code block is
/// replaced by its preview HTML and set aside under its id, the `k`-th block
/// (from 1) under `codeblock-id-k`.
pub open spec fn block_step(s: BlockModel, e: EventView, m: Seq<(Seq<char>, Seq<char>)>) -> BlockModel {
    match e {
        EventView::HeadingStart { level, id, classes, attrs } => {
            let id2 = match id {
                Some(x) => match lookup(m, x) {
                    Some(y) => Some(y),
                    None => Some(x),
                },
                None => None,
            };
            BlockModel { out: s.out.push(EventView::HeadingStart { level, id: id2, classes, attrs }), ..s }
        },
        EventView::CodeBlockStart(lang) => BlockModel {
            in_code: true,
            lang: match lang {
                Some(l) => l,
                None => Seq::empty(),
            },
            ..s
        },
        EventView::Text(t) => {
            if s.in_code {
                BlockModel { buf: s.buf + t, ..s }
            } else {
                BlockModel { out: s.out.push(e), ..s }
            }
        },
        EventView::CodeBlockEnd => {
            let id = block_id(s.blocks.len() + 1);
            BlockModel {
                out: s.out.push(EventView::Html(preview_code_html(id, s.lang, s.buf))),
                in_code: false,
                buf: Seq::empty(),
                blocks: s.blocks.push((id, (s.lang, s.buf))),
                ..s
            }
        },
        _ => BlockModel { out: s.out.push(e), ..s },
    }
}

pub open spec fn block_run(es: Seq<EventView>, m: Seq<(Seq<char>, Seq<char>)>) -> BlockModel
    decreases es.len(),
{
    if es.len() == 0 {
        BlockModel {
            out: Seq::empty(),
            in_code: false,
            lang: Seq::empty(),
            buf: Seq::empty(),
            blocks: Seq::empty(),
        }
    } else {
        block_step(block_run(es.drop_last(), m), es.last(), m)
    }
}

pub open spec fn keyed_block_views(bs: Seq<(String, CodeBlock)>) -> Seq<(Seq<char>, (Seq<char>, Seq<char>))> {
    bs.map_values(|b: (String, CodeBlock)| (b.0@, (b.1.lang@, b.1.code@)))
}


fn lookup_slug(m: &Vec<(String, String)>, key: &String) -> (r: Option<String>)
    ensures
        opt_view(r) == lookup(pair_views(m@), key@),
{
    let ghost pm = pair_views(m@);
    let mut i: usize = m.len();
    assert(pm.take(m.len() as int) =~= pm);
    while i > 0
        invariant
            pm == pair_views(m@),
            i <= m.len(),
            lookup(pm, key@) == lookup(pm.take(i as int), key@),
        decreases i,
    {
        let (k, v) = &m[i - 1];
        assert(pm.take(i as int).drop_last() =~= pm.take(i - 1));
        assert(pm.take(i as int).last() == (k@, v@));
        if *k == *key {
            return Some(v.clone());
        }
        i = i - 1;
    }
    None
}

fn push_event(out: &mut Vec<MdEvent>, e: MdEvent)
    ensures
        views(final(out)@) == views(old(out)@).push(e@),
        valid_events(views(old(out)@)) && valid_event(e@) ==> valid_events(views(final(out)@)),
{
    out.push(e);
    assert(views(out@) =~= views(old(out)@).push(e@));
}

/// The heading pass of the preview: ids for headings, and the table of
/// contents with each heading's plain text.
pub fn preview_headings(events: Vec<MdEvent>) -> (r: (Vec<MdEvent>, Vec<Header>, Vec<(String, String)>))
    requires
        valid_events(views(events@)),
    ensures
        valid_events(views(r.0@)),
        views(r.0@) == preview_run(views(events@)).out,
        hviews(r.1@) == preview_run(views(events@)).toc,
        pair_views(r.2@) == preview_run(views(events@)).id_map,
{
    let ghost ev = events@;
    let ghost es = views(events@);
    let mut out: Vec<MdEvent> = Vec::new();
    let mut toc: Vec<Header> = Vec::new();
    let mut id_map: Vec<(String, String)> = Vec::new();
    let mut in_header = false;
    let mut level: u8 = 1;
    let mut plain = String::new();
    let mut counter: usize = 0;
    let n = events.len();
    for e in it: events
        invariant
            it.seq() == ev,
            ev.len() == n,
            es == views(ev),
            valid_events(es),
            valid_events(views(out@)),
            counter <= it.index(),
            ({
                let m = preview_run(es.take(it.index() as int));
                &&& views(out@) == m.out
                &&& hviews(toc@) == m.toc
                &&& pair_views(id_map@) == m.id_map
                &&& in_header == m.in_header
                &&& level == m.level
                &&& plain@ == m.plain
                &&& counter as nat == m.counter
            }),
    {
        let ghost i = it.index() as int;
        assert(es[i] == e@);
        assert(es.take(i + 1).drop_last() =~= es.take(i));
        let ghost toc0 = toc@;
        let ghost map0 = id_map@;
        match e {
            MdEvent::HeadingStart { level: l, id, classes, attrs } => {
                let the_id = match id {
                    Some(x) => x,
                    None => {
                        counter = counter + 1;
                        make_placeholder(counter)
                    },
                };
                push_event(&mut out, MdEvent::HeadingStart { level: l, id: Some(the_id), classes, attrs });
                in_header = true;
                level = l;
                plain = String::new();
            },
            MdEvent::HeadingEnd(l) => {
                let slug = title_to_slug(plain.as_str());
                id_map.push((make_placeholder(counter), slug.clone()));
                assert(pair_views(id_map@) =~= pair_views(map0).push(
                    (placeholder(counter as nat), slug@),
                ));
                toc.push(Header { level, text: plain.clone(), id: slug });
                assert(hviews(toc@) =~= hviews(toc0).push(toc@.last()@));
                push_event(&mut out, MdEvent::HeadingEnd(l));
                in_header = false;
            },
            MdEvent::Text(t) => {
                if in_header {
                    plain.append(t.as_str());
                }
                push_event(&mut out, MdEvent::Text(t));
            },
            other => {
                push_event(&mut out, other);
            },
        }
    }
    assert(es.take(ev.len() as int) =~= es);
    (out, toc, id_map)
}

/// The second pass of the preview: heading ids resolved through `id_map`,
/// and code blocks replaced by their preview HTML and set aside by id.
pub fn preview_blocks(events: Vec<MdEvent>, id_map: &Vec<(String, String)>) -> (r: (Vec<MdEvent>, Vec<(String, CodeBlock)>))
    requires
        valid_events(views(events@)),
    ensures
        valid_events(views(r.0@)),
        views(r.0@) == block_run(views(events@), pair_views(id_map@)).out,
        keyed_block_views(r.1@) == block_run(views(events@), pair_views(id_map@)).blocks,
{
    let ghost ev = events@;
    let ghost es = views(events@);
    let ghost m = pair_views(id_map@);
    let mut out: Vec<MdEvent> = Vec::new();
    let mut blocks: Vec<(String, CodeBlock)> = Vec::new();
    let mut in_code = false;
    let mut lang = String::new();
    let mut buf = String::new();
    let n = events.len();
    for e in it: events
        invariant
            it.seq() == ev,
            ev.len() == n,
            es == views(ev),
            valid_events(es),
            valid_events(views(out@)),
            m == pair_views(id_map@),
            blocks@.len() <= it.index(),
            ({
                let b = block_run(es.take(it.index() as int), m);
                &&& views(out@) == b.out
                &&& keyed_block_views(blocks@) == b.blocks
                &&& in_code == b.in_code
                &&& lang@ == b.lang
                &&& buf@ == b.buf
            }),
    {
        let ghost i = it.index() as int;
        assert(es[i] == e@);
        assert(es.take(i + 1).drop_last() =~= es.take(i));
        let ghost blocks0 = blocks@;
        match e {
            MdEvent::HeadingStart { level, id, classes, attrs } => {
                let id2 = match id {
                    Some(x) => match lookup_slug(id_map, &x) {
                        Some(y) => Some(y),
                        None => Some(x),
                    },
                    None => None,
                };
                push_event(&mut out, MdEvent::HeadingStart { level, id: id2, classes, attrs });
            },
            MdEvent::CodeBlockStart(l) => {
                in_code = true;
                lang = match l {
                    Some(x) => x,
                    None => String::new(),
                };
            },
            MdEvent::Text(t) => {
                if in_code {
                    buf.append(t.as_str());
                } else {
                    push_event(&mut out, MdEvent::Text(t));
                }
            },
            MdEvent::CodeBlockEnd => {
                let n = blocks.len() + 1;
                let mut id = String::from_str("codeblock-id-");
                push_decimal(&mut id, n as u64);
                let mut html = String::from_str("<pre id=\"");
                html.append(id.as_str());
                html.append("\"><code class=\"language-");
                html.append(lang.as_str());
                html.append("\">");
                html.append(buf.as_str());
                html.append("</code></pre>");
                push_event(&mut out, MdEvent::Html(html));
                blocks.push((id, CodeBlock { lang: lang.clone(), code: buf.clone() }));
                assert(keyed_block_views(blocks@) =~= keyed_block_views(blocks0).push(
                    (block_id(n as nat), (lang@, buf@)),
                ));
                in_code = false;
                buf = String::new();
            },
            other => {
                push_event(&mut out, other);
            },
        }
    }
    assert(es.take(ev.len() as int) =~= es);
    (out, blocks)
}

/// Renders markdown for the editor's preview: the table of contents (with
/// each heading's plain text), the HTML, and the code blocks by the ids
/// that their `<pre>` elements carry, in document order.
pub fn parse_markdown(html_text: &str) -> (r: (Vec<Header>, String, Vec<(String, CodeBlock)>))
    ensures
        hviews(r.0@) == preview_run(parsed_basic(html_text@)).toc,
        r.1@ == html_of(block_run(preview_run(parsed_basic(html_text@)).out, preview_run(parsed_basic(html_text@)).id_map).out),
        keyed_block_views(r.2@) == block_run(preview_run(parsed_basic(html_text@)).out, preview_run(parsed_basic(html_text@)).id_map).blocks,
        forall|i: int, j: int| 0 <= i < j < r.2@.len() ==> r.2@[i].0@ != r.2@[j].0@,
{
    let events = parse_events_basic(html_text);
    let (headed, toc, id_map) = preview_headings(events);
    let ghost hv = views(headed@);
    let ghost mv = pair_views(id_map@);
    let (out, blocks) = preview_blocks(headed, &id_map);
    proof {
        lemma_block_ids(hv, mv);
        assert forall|i: int, j: int| 0 <= i < j < blocks@.len() implies blocks@[i].0@ != blocks@[j].0@ by {
            assert(keyed_block_views(blocks@)[i].0 == blocks@[i].0@);
            assert(keyed_block_views(blocks@)[j].0 == blocks@[j].0@);
            if blocks@[i].0@ == blocks@[j].0@ {
                lemma_block_id_injective((i + 1) as nat, (j + 1) as nat);
            }
        }
    }
    let html = write_events(out);
    (toc, html, blocks)
}


/// The `k`-th block set aside (from 0) is under `block_id(k + 1)`.
proof fn lemma_block_ids(es: Seq<EventView>, m: Seq<(Seq<char>, Seq<char>)>)
    ensures
        forall|k: int| 0 <= k < block_run(es, m).blocks.len() ==> #[trigger] block_run(es, m).blocks[k].0 == block_id((k + 1) as nat),
    decreases es.len(),
{
    if es.len() > 0 {
        lemma_block_ids(es.drop_last(), m);
        let b0 = block_run(es.drop_last(), m);
        let b = block_run(es, m);
        assert forall|k: int| 0 <= k < b.blocks.len() implies #[trigger] b.blocks[k].0 == block_id((k + 1) as nat) by {
            if k < b0.blocks.len() {
                assert(b.blocks[k] == b0.blocks[k]);
            }
        }
    }
}

proof fn lemma_block_id_injective(a: nat, b: nat)
    requires
        block_id(a) == block_id(b),
    ensures
        a == b,
{
    let p = "codeblock-id-"@;
    assert(decimal(a) =~= block_id(a).skip(p.len() as int));
    assert(decimal(b) =~= block_id(b).skip(p.len() as int));
    lemma_decimal_injective(a, b);
}

} // verus!
