//! Syntax highlighting of code blocks with syntect's default syntaxes,
//! producing HTML that styles through CSS classes.

use vstd::prelude::*;
use syntect::html::{ClassStyle, ClassedHTMLGenerator};
use syntect::parsing::{SyntaxReference, SyntaxSet};
use crate::events::opt_view;
use crate::text::{chars_of, push_char};

verus! {

#[verifier::external_type_specification]
#[verifier::external_body]
pub struct ExSyntaxSet(SyntaxSet);

#[verifier::external_type_specification]
#[verifier::external_body]
pub struct ExSyntaxReference(SyntaxReference);

#[verifier::external_type_specification]
#[verifier::external_body]
pub struct ExClassedHTMLGenerator<'a>(ClassedHTMLGenerator<'a>);

#[verifier::external_type_specification]
#[verifier::external_body]
pub struct ExSyntectError(syntect::Error);

/// Whether syntect's default syntax set has a syntax for a file extension.
pub uninterp spec fn has_syntax(ext: Seq<char>) -> bool;

/// Whether syntect fails on `line` after the lines `fed` were parsed, in the
/// default syntax that the extension `ext` names.
pub uninterp spec fn line_fails(ext: Seq<char>, fed: Seq<Seq<char>>, line: Seq<char>) -> bool;

/// syntect's class-styled HTML for the lines `fed`, parsed in the default
/// syntax that the extension `ext` names.
pub uninterp spec fn classed_html(ext: Seq<char>, fed: Seq<Seq<char>>) -> Seq<char>;

/// Every line parses after the ones before it.
pub open spec fn lines_parse(ext: Seq<char>, lines: Seq<Seq<char>>) -> bool
    decreases lines.len(),
{
    lines.len() == 0 || (lines_parse(ext, lines.drop_last()) && !line_fails(ext, lines.drop_last(), lines.last()))
}

/// The highlighted HTML of `code` in the syntax that `ext` names: `None`
/// where no syntax has that extension or a line fails to parse.
pub open spec fn highlighted_of(ext: Seq<char>, code: Seq<char>) -> Option<Seq<char>> {
    if has_syntax(ext) && lines_parse(ext, lines_of(code)) {
        Some(classed_html(ext, lines_of(code)))
    } else {
        None
    }
}

/// Highlights code with the syntaxes that syntect ships.
pub struct Highlighter {
    ss: SyntaxSet,
}

/// A syntax of the default set, with the extension it was found by.
struct Syntax<'a> {
    sr: &'a SyntaxReference,
    ss: &'a SyntaxSet,
    ext: Ghost<Seq<char>>,
}

/// A generator for one syntax, with the lines parsed so far. Only the
/// functions below make one, so `ext` and `fed` always tell its state.
struct Generator<'a> {
    g: ClassedHTMLGenerator<'a>,
    ext: Ghost<Seq<char>>,
    fed: Ghost<Seq<Seq<char>>>,
}

/// Relies on `SyntaxSet::load_defaults_newlines`: syntect's bundled syntaxes.
#[verifier::external_body]
fn load_default_syntaxes() -> SyntaxSet {
    SyntaxSet::load_defaults_newlines()
}

/// Relies on `SyntaxSet::find_syntax_by_extension`. A `Highlighter` only
/// ever holds the default set, so whether a syntax is found, and which,
/// depends on the extension alone.
#[verifier::external_body]
fn find_syntax<'a>(h: &'a Highlighter, ext: &str) -> (r: Option<Syntax<'a>>)
    ensures
        r is Some == has_syntax(ext@),
        r matches Some(s) ==> s.ext@ == ext@,
{
    match h.ss.find_syntax_by_extension(ext) {
        Some(sr) => Some(Syntax { sr, ss: &h.ss, ext: Ghost(ext@) }),
        None => None,
    }
}

/// Relies on `ClassedHTMLGenerator::new_with_class_style`: a fresh
/// generator that writes space-separated CSS classes.
#[verifier::external_body]
fn new_generator<'a>(s: Syntax<'a>) -> (r: Generator<'a>)
    ensures
        r.ext == s.ext,
        r.fed@ == Seq::<Seq<char>>::empty(),
{
    let g = ClassedHTMLGenerator::new_with_class_style(s.sr, s.ss, ClassStyle::Spaced);
    Generator { g, ext: s.ext, fed: Ghost(Seq::empty()) }
}

/// Relies on `ClassedHTMLGenerator::parse_html_for_line_which_includes_newline`:
/// parsing one more line, which fails or not depending on the syntax and
/// the lines before it. The generator is given up on failure.
#[verifier::external_body]
fn feed_line<'a>(gen: Generator<'a>, line: &str) -> (r: Result<Generator<'a>, syntect::Error>)
    ensures
        r is Err == line_fails(gen.ext@, gen.fed@, line@),
        r matches Ok(next) ==> next.ext == gen.ext && next.fed@ == gen.fed@.push(line@),
{
    let mut g = gen.g;
    match g.parse_html_for_line_which_includes_newline(line) {
        Ok(()) => Ok(Generator { g, ext: gen.ext, fed: Ghost(gen.fed@.push(line@)) }),
        Err(e) => Err(e),
    }
}

/// Relies on `ClassedHTMLGenerator::finalize`: the HTML of the lines parsed.
#[verifier::external_body]
fn finish_generator(gen: Generator) -> (r: String)
    ensures
        r@ == classed_html(gen.ext@, gen.fed@),
{
    gen.g.finalize()
}

proof fn lemma_parse_prefix(ext: Seq<char>, lines: Seq<Seq<char>>, j: int)
    requires
        0 <= j <= lines.len(),
        lines_parse(ext, lines),
    ensures
        lines_parse(ext, lines.take(j)),
    decreases lines.len(),
{
    if j < lines.len() {
        lemma_parse_prefix(ext, lines.drop_last(), j);
        assert(lines.drop_last().take(j) =~= lines.take(j));
    } else {
        assert(lines.take(j) =~= lines);
    }
}

/// Splitting state: the lines finished so far and the current line.
pub open spec fn lines_run(s: Seq<char>) -> (Seq<Seq<char>>, Seq<char>)
    decreases s.len(),
{
    if s.len() == 0 {
        (Seq::empty(), Seq::empty())
    } else {
        let (done, cur) = lines_run(s.drop_last());
        if s.last() == '\n' {
            (done.push(cur.push('\n')), Seq::empty())
        } else {
            (done, cur.push(s.last()))
        }
    }
}

/// The lines of a text, each with its line feed; the last one may lack it.
pub open spec fn lines_of(s: Seq<char>) -> Seq<Seq<char>> {
    let (done, cur) = lines_run(s);
    if cur.len() > 0 {
        done.push(cur)
    } else {
        done
    }
}

/// Splits a text after each line feed.
pub fn lines_with_endings(s: &str) -> (r: Vec<String>)
    ensures
        r@.map_values(|l: String| l@) == lines_of(s@),
{
    let cs = chars_of(s);
    let mut done: Vec<String> = Vec::new();
    let mut cur = String::new();
    let mut i: usize = 0;
    while i < cs.len()
        invariant
            cs@ == s@,
            i <= cs.len(),
            done@.map_values(|l: String| l@) == lines_run(s@.take(i as int)).0,
            cur@ == lines_run(s@.take(i as int)).1,
        decreases cs.len() - i,
    {
        assert(s@.take(i as int + 1).drop_last() =~= s@.take(i as int));
        let ghost d0 = done@;
        push_char(&mut cur, cs[i]);
        if cs[i] == '\n' {
            done.push(cur);
            cur = String::new();
            assert(done@.map_values(|l: String| l@) =~= d0.map_values(|l: String| l@).push(done@.last()@));
        }
        i = i + 1;
    }
    assert(s@.take(cs.len() as int) =~= s@);
    let ghost d1 = done@;
    if !cur.as_str().is_empty() {
        done.push(cur);
        assert(done@.map_values(|l: String| l@) =~= d1.map_values(|l: String| l@).push(done@.last()@));
    }
    done
}

impl Highlighter {
    pub fn new() -> Self {
        Highlighter { ss: load_default_syntaxes() }
    }

    /// HTML for `code_text` in the syntax that the file extension `ext`
    /// names, with CSS classes and no inline styles; `None` where no syntax
    /// has that extension or a line cannot be parsed.
    pub fn parse_html_with_class_style_with_code_extension(&self, code_text: &str, ext: &str) -> (r: Option<String>)
        ensures
            opt_view(r) == highlighted_of(ext@, code_text@),
            !has_syntax(ext@) ==> r is None,
    {
        match find_syntax(self, ext) {
            None => None,
            Some(syn) => {
                let mut gen = new_generator(syn);
                let lines = lines_with_endings(code_text);
                let ghost ls = lines@.map_values(|l: String| l@);
                let mut i: usize = 0;
                assert(ls.take(0) =~= Seq::<Seq<char>>::empty());
                while i < lines.len()
                    invariant
                        ls == lines@.map_values(|l: String| l@),
                        ls == lines_of(code_text@),
                        i <= lines.len(),
                        gen.ext@ == ext@,
                        gen.fed@ == ls.take(i as int),
                        lines_parse(ext@, ls.take(i as int)),
                    decreases lines.len() - i,
                {
                    assert(ls[i as int] == lines@[i as int]@);
                    assert(ls.take(i as int + 1).drop_last() =~= ls.take(i as int));
                    assert(ls.take(i as int + 1) =~= ls.take(i as int).push(ls[i as int]));
                    match feed_line(gen, lines[i].as_str()) {
                        Ok(next) => {
                            gen = next;
                        },
                        Err(_) => {
                            proof {
                                if lines_parse(ext@, ls) {
                                    lemma_parse_prefix(ext@, ls, i as int + 1);
                                }
                            }
                            return None;
                        },
                    }
                    i = i + 1;
                }
                assert(ls.take(lines.len() as int) =~= ls);
                Some(finish_generator(gen))
            },
        }
    }
}

} // verus!
