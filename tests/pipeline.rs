use blog_render::code::code_block_html;
use blog_render::events::{parse_events, MdEvent};
use blog_render::highlight::Highlighter;
use blog_render::render::{parse_markdown, render_with_highlights, replace_first_occurrence};
use blog_render::sections::{transform, Rendered, NOTE_BANNER};

fn count(h: &str, p: &str) -> usize {
    h.matches(p).count()
}

fn render_plain(md: &str) -> (Vec<blog_render::sections::Header>, String) {
    let events = parse_events(md);
    render_with_highlights(events, &Vec::new())
}

#[test]
fn nested_headings_open_and_close_sections() {
    let (toc, body) = render_plain("# A\n\ntext\n\n## B\n\nmore");
    assert_eq!(toc.len(), 2);
    assert_eq!((toc[0].level, toc[0].text.as_str(), toc[0].id.as_str()), (1, "A", "a"));
    assert_eq!((toc[1].level, toc[1].text.as_str(), toc[1].id.as_str()), (2, "B", "b"));
    assert_eq!(
        body,
        "<section id=a>\n<h1 id=\"heading-id312-1\">A</h1>\n<p>text</p>\n\
         <section id=b>\n<h2 id=\"heading-id312-2\">B</h2>\n<p>more</p>\n\
         </section>\n</section>\n"
    );
    let a = body.find("<section id=a>").unwrap();
    let b = body.find("<section id=b>").unwrap();
    assert!(a < b);
    assert!(body.ends_with("</section>\n</section>\n"));
}

#[test]
fn python_block_without_highlighting() {
    let events = parse_events("```python\nprint(1)\n```\n");
    let (toc, body) = render_with_highlights(events, &vec![None]);
    assert!(toc.is_empty());
    assert_eq!(
        body,
        "<pre><span class=\"language-tag\">.python</span><code class=\"language-python\">print(1)\n</code></pre>"
    );
}

#[test]
fn duplicate_heading_text_keeps_duplicate_slugs() {
    let (toc, body) = render_plain("# Intro\n\n# Intro\n");
    assert_eq!(toc.len(), 2);
    assert_eq!(toc[0].id, "intro");
    assert_eq!(toc[1].id, "intro");
    assert_eq!(count(&body, "<section id=intro>"), 2);
}

#[test]
fn heading_tag_id_stays_unresolved() {
    let (toc, body) = render_plain("# Intro\n\nbody text\n");
    assert_eq!(toc[0].id, "intro");
    // The section marker comes first and takes the slug; the heading tag keeps its placeholder.
    assert!(body.starts_with("<section id=intro>\n<h1 id=\"heading-id312-1\">Intro</h1>"));
    assert_eq!(count(&body, "heading-id312-1"), 1);
}

#[test]
fn toc_length_matches_heading_and_section_starts() {
    let md = "# One\n\n## Two\n\n### Three\n\ntext\n\n## Four\n\n# Five\n";
    let (toc, body) = render_plain(md);
    assert_eq!(toc.len(), 5);
    assert_eq!(count(&body, "<section id="), toc.len());
    assert_eq!(count(&body, "<h1") + count(&body, "<h2") + count(&body, "<h3"), toc.len());
}

#[test]
fn section_markers_balance() {
    for md in ["# A\n## B\n### C\n## D\n# E\n", "### deep\n# top\n", "no headings at all", ""] {
        let (_, body) = render_plain(md);
        assert_eq!(count(&body, "<section id="), count(&body, "</section>"), "{md}");
    }
}

#[test]
fn section_stack_closes_by_level() {
    let events = parse_events("# A\n## B\n### C\n## D\n# E\n");
    let r = transform(events);
    // After the last heading only the level-1 section of E is open.
    assert_eq!(r.open_levels, vec![1]);
    let kinds: Vec<&str> = r
        .events
        .iter()
        .filter_map(|e| match e {
            Rendered::SectionOpen(_) => Some("open"),
            Rendered::SectionClose => Some("close"),
            _ => None,
        })
        .collect();
    assert_eq!(
        kinds,
        vec!["open", "open", "open", "close", "close", "open", "close", "close", "open"]
    );
    let nested = transform(parse_events("# A\n## B\n### C\n"));
    assert_eq!(nested.open_levels, vec![1, 2, 3]);
}

#[test]
fn unknown_language_falls_back_to_escaped_text() {
    let h = Highlighter::new();
    let (_, body) = parse_markdown("```nosuchlanguage\na < b && \"c\"\n```\n", &h);
    assert_eq!(
        body,
        "<pre><span class=\"language-tag\">.nosuchlanguage</span><code class=\"language-nosuchlanguage\">a &lt; b &amp;&amp; &quot;c&quot;\n</code></pre>"
    );
}

#[test]
fn known_language_is_highlighted_with_classes() {
    let h = Highlighter::new();
    let (_, body) = parse_markdown("```rs\nfn main() {}\n```\n", &h);
    assert!(body.starts_with("<pre><span class=\"language-tag\">.rs</span><code class=\"language-rs\">"));
    assert!(body.contains("<span class=\""));
    assert!(!body.contains("style="));
    assert!(body.ends_with("</code></pre>"));
}

#[test]
fn indented_block_has_empty_language_tag() {
    let events = parse_events("    x = 1\n");
    let (_, body) = render_with_highlights(events, &Vec::new());
    assert_eq!(
        body,
        "<pre><span class=\"language-tag\">.</span><code class=\"language-\">x = 1\n</code></pre>"
    );
}

#[test]
fn given_highlighting_replaces_code_text() {
    let events = parse_events("```py\nx\n```\n");
    let (_, body) = render_with_highlights(events, &vec![Some("<b>x</b>".to_string())]);
    assert_eq!(
        body,
        "<pre><span class=\"language-tag\">.py</span><code class=\"language-py\"><b>x</b></code></pre>"
    );
}

#[test]
fn malformed_math_is_passed_through() {
    let (_, body) = render_plain("before $\\frac{1}{$ after\n");
    assert!(body.contains("before"));
    assert!(body.contains("after"));
    assert!(body.contains("\\frac{1}{"));
    assert!(!body.contains("katex"));
}

#[test]
fn valid_math_is_typeset() {
    let (_, body) = render_plain("inline $x^2$ here\n\n$$\ny = 1\n$$\n");
    assert!(body.contains("katex"));
    assert!(body.contains("katex-display"));
    assert!(!body.contains("$x^2$"));
}

#[test]
fn math_in_heading_reaches_the_toc() {
    let (toc, _) = render_plain("# Area $r^2$\n");
    assert_eq!(toc.len(), 1);
    assert!(toc[0].text.starts_with("Area "));
    assert!(toc[0].text.contains("katex"));
    assert_eq!(toc[0].id, "area");
}

#[test]
fn heading_with_inline_markup() {
    let (toc, body) = render_plain("## Hello *big* World\n");
    assert_eq!(toc[0].level, 2);
    assert_eq!(toc[0].text, "Hello <em>big</em> World");
    assert_eq!(toc[0].id, "hello-big-world");
    assert!(body.starts_with("<section id=hello-big-world>\n"));
}

#[test]
fn empty_heading_has_empty_slug() {
    let (toc, _) = render_plain("#\n");
    assert_eq!(toc.len(), 1);
    assert_eq!(toc[0].id, "");
}

#[test]
fn alert_blockquote_gets_banner() {
    let (_, body) = render_plain("> [!NOTE]\n> careful\n");
    assert!(body.contains(NOTE_BANNER));
    assert!(body.contains("careful"));
    let (_, plain) = render_plain("> just a quote\n");
    assert!(!plain.contains("markdown-alert-title"));
}

#[test]
fn empty_document() {
    let (toc, body) = render_plain("");
    assert!(toc.is_empty());
    assert_eq!(body, "");
}

#[test]
fn parser_events_are_classified() {
    let events = parse_events("# T\n\n```c\nint x;\n```\n");
    assert!(matches!(events[0], MdEvent::HeadingStart { level: 1, .. }));
    assert!(matches!(events[1], MdEvent::Text(ref t) if t == "T"));
    assert!(matches!(events[2], MdEvent::HeadingEnd(1)));
    assert!(matches!(events[3], MdEvent::CodeBlockStart(Some(ref l)) if l == "c"));
    assert!(matches!(events[5], MdEvent::CodeBlockEnd));
}

#[test]
fn code_block_html_escapes_only_without_highlighting() {
    assert_eq!(
        code_block_html("x", "<&>", None),
        "<pre><span class=\"language-tag\">.x</span><code class=\"language-x\">&lt;&amp;&gt;</code></pre>"
    );
    assert_eq!(
        code_block_html("x", "<&>", Some("H".to_string())),
        "<pre><span class=\"language-tag\">.x</span><code class=\"language-x\">H</code></pre>"
    );
}

#[test]
fn replace_first_occurrence_only_first() {
    assert_eq!(replace_first_occurrence("a-b-a-b", "a", "X"), "X-b-a-b");
    assert_eq!(replace_first_occurrence("abc", "z", "X"), "abc");
    assert_eq!(replace_first_occurrence("abc", "", "X"), "Xabc");
    assert_eq!(replace_first_occurrence("heading-id312-10 heading-id312-1", "heading-id312-1", "s"), "s0 heading-id312-1");
}

#[test]
fn highlighting_reaches_each_block() {
    let h = Highlighter::new();
    let md = "```rs\nlet a = 1;\n```\n\n```nosuchlanguage\nx < y\n```\n\n```rs\nlet a = 1;\n```\n";
    let (_, body) = parse_markdown(md, &h);
    let expected = h.parse_html_with_class_style_with_code_extension("let a = 1;\n", "rs").unwrap();
    let block = format!("<pre><span class=\"language-tag\">.rs</span><code class=\"language-rs\">{expected}</code></pre>");
    assert_eq!(body.matches(block.as_str()).count(), 2);
    assert!(body.contains("<code class=\"language-nosuchlanguage\">x &lt; y\n</code>"));
}

#[test]
fn highlighter_is_repeatable() {
    let h = Highlighter::new();
    let a = h.parse_html_with_class_style_with_code_extension("def f():\n    return 1\n", "py");
    let b = h.parse_html_with_class_style_with_code_extension("def f():\n    return 1\n", "py");
    assert!(a.is_some());
    assert_eq!(a, b);
}

#[test]
fn heading_events_carry_plain_strings() {
    let events = parse_events("## Title\n");
    match &events[0] {
        MdEvent::HeadingStart { level, id, classes, attrs } => {
            assert_eq!(*level, 2);
            assert!(id.is_none());
            assert!(classes.is_empty());
            assert!(attrs.is_empty());
        }
        _ => panic!("expected a heading start"),
    }
}
