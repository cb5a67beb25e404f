use blog_render::preview::parse_markdown;

#[test]
fn preview_resolves_heading_ids_and_sets_blocks_aside() {
    let (toc, html, blocks) = parse_markdown("# Intro\n\n```rust\nfn a() {}\n```\n\n## Next Part\n");
    assert_eq!(toc.len(), 2);
    assert_eq!((toc[0].level, toc[0].text.as_str(), toc[0].id.as_str()), (1, "Intro", "intro"));
    assert_eq!((toc[1].level, toc[1].text.as_str(), toc[1].id.as_str()), (2, "Next Part", "next-part"));
    assert_eq!(
        html,
        "<h1 id=\"intro\">Intro</h1>\n<pre id=\"codeblock-id-1\"><code class=\"language-rust\">fn a() {}\n</code></pre>\n\
         <h2 id=\"next-part\">Next Part</h2>\n"
    );
    assert_eq!(blocks.len(), 1);
    assert_eq!(blocks[0].0, "codeblock-id-1");
    assert_eq!(blocks[0].1.lang, "rust");
    assert_eq!(blocks[0].1.code, "fn a() {}\n");
}

#[test]
fn preview_numbers_blocks_in_order() {
    let (_, html, blocks) = parse_markdown("```\na < b\n```\n\n    indented\n");
    let ids: Vec<&str> = blocks.iter().map(|b| b.0.as_str()).collect();
    assert_eq!(ids, vec!["codeblock-id-1", "codeblock-id-2"]);
    assert_eq!(blocks[0].1.lang, "");
    assert_eq!(blocks[1].1.code, "indented\n");
    assert!(html.contains("<pre id=\"codeblock-id-1\"><code class=\"language-\">a < b\n</code></pre>"));
}

#[test]
fn preview_leaves_math_unrendered() {
    let (toc, html, blocks) = parse_markdown("price $5 and $6\n");
    assert!(toc.is_empty());
    assert!(blocks.is_empty());
    assert_eq!(html, "<p>price $5 and $6</p>\n");
}

#[test]
fn preview_block_ids_are_distinct() {
    let (_, _, blocks) = parse_markdown("```a\n1\n```\n\n```b\n2\n```\n\n```c\n3\n```\n");
    let ids: Vec<&str> = blocks.iter().map(|b| b.0.as_str()).collect();
    assert_eq!(ids, vec!["codeblock-id-1", "codeblock-id-2", "codeblock-id-3"]);
}
