use blog_render::auth::{bearer_token, token_is_live, Authorization};
use blog_render::cookies::{cookie_string, find_cookie, CookieAttributes};
use blog_render::highlight::{lines_with_endings, Highlighter};
use blog_render::slug::{collapse_separators, decide_slug, slug_candidate, title_to_slug, SlugDecision};
use blog_render::text::escape_html;
use blog_render::validation::{is_valid_email, is_valid_password, is_valid_username, normalize_email};

#[test]
fn slugs_of_titles() {
    assert_eq!(title_to_slug("Hello, World!"), "hello-world");
    assert_eq!(title_to_slug("  --Rust  2024-- "), "rust-2024");
    assert_eq!(title_to_slug(""), "");
    assert_eq!(title_to_slug("!!!"), "");
    assert_eq!(title_to_slug("ÄÖÜ über"), "äöü-über");
    assert_eq!(title_to_slug("a_b"), "a-b");
}

#[test]
fn slugify_is_idempotent() {
    for t in ["Hello, World!", "  --Rust  2024-- ", "A  B--C", "x", "", "Ünïcode Têxt 42"] {
        let once = title_to_slug(t);
        assert_eq!(title_to_slug(&once), once, "{t}");
    }
}

#[test]
fn collapse_keeps_case() {
    assert_eq!(collapse_separators("--Ab  Cd--"), "Ab-Cd");
}

#[test]
fn escaping() {
    assert_eq!(escape_html("a<b>&\"c'"), "a&lt;b&gt;&amp;&quot;c'");
    assert_eq!(escape_html(""), "");
}

#[test]
fn cookie_attributes_in_order() {
    let mut attrs = CookieAttributes::new();
    attrs.path("/").max_age(31536000).same_site_strict().secure();
    assert_eq!(attrs.get_attributes_string(), ";path=/;max-age=31536000;samesite=strict;secure");
    let mut other = CookieAttributes::new();
    other._domain("example.com")._same_site_lax()._same_site_none().max_age(0);
    assert_eq!(other.get_attributes_string(), ";domain=example.com;samesite=lax;samesite=none;max-age=0");
    assert_eq!(cookie_string("token", "abc", &attrs), "token=abc;path=/;max-age=31536000;samesite=strict;secure");
    assert_eq!(CookieAttributes::new().get_attributes_string(), "");
}

#[test]
fn emails_are_normalized() {
    assert_eq!(normalize_email("  Foo@Example.COM \n"), "foo@example.com");
    assert_eq!(normalize_email(""), "");
}

#[test]
fn email_check() {
    assert!(is_valid_email("user.name+tag@example.co"));
    assert!(!is_valid_email("no-at-sign.example.com"));
    assert!(!is_valid_email("a@b"));
}

#[test]
fn username_check() {
    assert!(is_valid_username("abc_123"));
    assert!(!is_valid_username("ab"));
    assert!(!is_valid_username("has space"));
    assert!(!is_valid_username(&"a".repeat(101)));
    assert!(is_valid_username(&"a".repeat(100)));
}

#[test]
fn password_check() {
    assert!(is_valid_password("S3cret!pass"));
    assert!(!is_valid_password("no"));
    assert!(!is_valid_password("tab\tinside"));
}

#[test]
fn bearer_tokens() {
    assert_eq!(bearer_token("Bearer abc.def"), Some("abc.def".to_string()));
    assert_eq!(bearer_token("Bearer "), Some(String::new()));
    assert_eq!(bearer_token("Basic abc"), None);
    assert_eq!(bearer_token("Bear"), None);
    assert!(token_is_live(10, 11));
    assert!(!token_is_live(11, 11));
}

#[test]
fn middleware_keeps_secret() {
    let auth = Authorization::new("SECRET-REDACTED");
    let mw = auth.new_transform(7u32);
    assert_eq!(mw.jwt_secret(), "SECRET-REDACTED");
    assert_eq!(*mw.service(), 7);
}

#[test]
fn lines_keep_their_endings() {
    assert_eq!(lines_with_endings("foo\nbar\nbaz"), vec!["foo\n", "bar\n", "baz"]);
    assert_eq!(lines_with_endings("a\n"), vec!["a\n"]);
    assert!(lines_with_endings("").is_empty());
}

#[test]
fn highlighter_knows_common_extensions() {
    let h = Highlighter::new();
    let out = h.parse_html_with_class_style_with_code_extension("let x = 1;\n", "rs").unwrap();
    assert!(out.contains("<span class=\""));
    assert!(h.parse_html_with_class_style_with_code_extension("x", "nosuchlanguage").is_none());
}

#[test]
fn slug_candidates_count_up() {
    assert_eq!(slug_candidate("My First Post", 0), "my-first-post");
    assert_eq!(slug_candidate("My First Post", 1), "my-first-post-1");
    assert_eq!(slug_candidate("My First Post", 12), "my-first-post-12");
}

#[test]
fn cookies_are_found_by_name() {
    assert_eq!(find_cookie("a=1; token=xyz; b=2", "token"), Some("xyz".to_string()));
    assert_eq!(find_cookie("tokenx=1;token=2", "token"), Some("2".to_string()));
    assert_eq!(find_cookie("token=first; token=second", "token"), Some("first".to_string()));
    assert_eq!(find_cookie("a=1; b=2", "token"), None);
    assert_eq!(find_cookie("", "token"), None);
    assert_eq!(find_cookie("  \tname=va=lue", "name"), Some("va=lue".to_string()));
}

#[test]
fn slug_decisions_step_through_attempts() {
    match decide_slug("Hello World", 0, false) {
        SlugDecision::Use(s) => assert_eq!(s, "hello-world"),
        SlugDecision::TryNext(_) => panic!("a free slug is used"),
    }
    match decide_slug("Hello World", 0, true) {
        SlugDecision::TryNext(n) => assert_eq!(n, 1),
        SlugDecision::Use(_) => panic!("a taken slug is not used"),
    }
    match decide_slug("Hello World", 3, false) {
        SlugDecision::Use(s) => assert_eq!(s, "hello-world-3"),
        SlugDecision::TryNext(_) => panic!("a free slug is used"),
    }
}
