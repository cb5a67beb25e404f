//! Anchor slugs: lower-cased text in which every run of characters that are
//! not alphanumeric becomes a single hyphen, with no hyphen at either end.

use vstd::prelude::*;
use crate::text::{chars_of, decimal, push_char, push_decimal};

verus! {

/// What `str::to_lowercase` returns for a string.
pub uninterp spec fn lower_of(s: Seq<char>) -> Seq<char>;

/// Whether `char::is_alphanumeric` holds of a character.
pub uninterp spec fn is_alnum(c: char) -> bool;

/// Relies on `str::to_lowercase`: the lower-case mapping of every character,
/// which depends on the characters alone; the empty string stays empty.
#[verifier::external_body]
pub(crate) fn lowercase(s: &str) -> (r: String)
    ensures
        r@ == lower_of(s@),
        s@.len() == 0 ==> r@.len() == 0,
{
    s.to_lowercase()
}

/// Relies on `char::is_alphanumeric`: alphabetic or numeric in Unicode's
/// tables. Among ASCII characters these are the letters and digits only.
#[verifier::external_body]
pub(crate) fn alphanumeric(c: char) -> (r: bool)
    ensures
        r == is_alnum(c),
        ('a' <= c <= 'z' || 'A' <= c <= 'Z' || '0' <= c <= '9') ==> r,
        (c as u32) < 128 && !('a' <= c <= 'z' || 'A' <= c <= 'Z' || '0' <= c <= '9') ==> !r,
{
    c.is_alphanumeric()
}

/// Reading state of the slug builder: the output so far, and whether a
/// separator is pending since the last alphanumeric character.
pub open spec fn slug_step(st: (Seq<char>, bool), c: char) -> (Seq<char>, bool) {
    if is_alnum(c) {
        if st.1 && st.0.len() > 0 {
            (st.0.push('-').push(c), false)
        } else {
            (st.0.push(c), false)
        }
    } else {
        (st.0, true)
    }
}

pub open spec fn slug_run(t: Seq<char>) -> (Seq<char>, bool)
    decreases t.len(),
{
    if t.len() == 0 {
        (Seq::empty(), false)
    } else {
        slug_step(slug_run(t.drop_last()), t.last())
    }
}

/// The words of `t` (maximal runs of alphanumeric characters) joined by
/// single hyphens.
pub open spec fn collapse(t: Seq<char>) -> Seq<char> {
    slug_run(t).0
}

/// The slug of a heading or title text.
pub open spec fn slug_of(s: Seq<char>) -> Seq<char> {
    collapse(lower_of(s))
}

/// A well-formed slug: alphanumeric characters separated by single hyphens,
/// with no hyphen first or last.
pub open spec fn is_slug(s: Seq<char>) -> bool {
    &&& forall|i: int| 0 <= i < s.len() ==> (is_alnum(#[trigger] s[i]) || s[i] == '-')
    &&& s.len() > 0 ==> is_alnum(s[0]) && is_alnum(s.last())
    &&& forall|i: int| 0 <= i < s.len() - 1 ==> (#[trigger] s[i] == '-' ==> s[i + 1] != '-')
}

/// A prefix of a slug: like a slug, but it may end in one hyphen.
spec fn is_slug_prefix(s: Seq<char>) -> bool {
    &&& forall|i: int| 0 <= i < s.len() ==> (is_alnum(#[trigger] s[i]) || s[i] == '-')
    &&& s.len() > 0 ==> is_alnum(s[0])
    &&& forall|i: int| 0 <= i < s.len() - 1 ==> (#[trigger] s[i] == '-' ==> s[i + 1] != '-')
}

proof fn lemma_run_is_slug(t: Seq<char>)
    requires
        !is_alnum('-'),
    ensures
        is_slug(slug_run(t).0),
    decreases t.len(),
{
    if t.len() > 0 {
        lemma_run_is_slug(t.drop_last());
        let p = slug_run(t.drop_last()).0;
        let c = t.last();
        if is_alnum(c) {
            if slug_run(t.drop_last()).1 && p.len() > 0 {
                let q = p.push('-').push(c);
                assert(q[p.len() as int] == '-');
                assert forall|i: int| 0 <= i < q.len() - 1 && #[trigger] q[i] == '-' implies q[i + 1] != '-' by {
                    if i < p.len() - 1 {
                        assert(q[i] == p[i] && q[i + 1] == p[i + 1]);
                    } else if i == p.len() - 1 {
                        assert(q[i] == p.last());
                    }
                }
                assert forall|i: int| 0 <= i < q.len() implies (is_alnum(#[trigger] q[i])
                    || q[i] == '-') by {
                    if i < p.len() {
                        assert(q[i] == p[i]);
                    }
                }
            } else {
                let q = p.push(c);
                assert forall|i: int| 0 <= i < q.len() - 1 && #[trigger] q[i] == '-' implies q[i + 1] != '-' by {
                    if i < p.len() - 1 {
                        assert(q[i] == p[i] && q[i + 1] == p[i + 1]);
                    }
                }
                assert forall|i: int| 0 <= i < q.len() implies (is_alnum(#[trigger] q[i])
                    || q[i] == '-') by {
                    if i < p.len() {
                        assert(q[i] == p[i]);
                    }
                }
            }
        }
    }
}

proof fn lemma_run_of_slug_prefix(s: Seq<char>)
    requires
        !is_alnum('-'),
        is_slug_prefix(s),
    ensures
        slug_run(s) == (if s.len() > 0 && s.last() == '-' {
            (s.drop_last(), true)
        } else {
            (s, false)
        }),
    decreases s.len(),
{
    if s.len() > 0 {
        let p = s.drop_last();
        assert(is_slug_prefix(p)) by {
            assert forall|i: int| 0 <= i < p.len() - 1 && #[trigger] p[i] == '-' implies p[i + 1] != '-' by {
                assert(p[i] == s[i] && p[i + 1] == s[i + 1]);
            }
            assert forall|i: int| 0 <= i < p.len() implies (is_alnum(#[trigger] p[i])
                || p[i] == '-') by {
                assert(p[i] == s[i]);
            }
            if p.len() > 0 {
                assert(p[0] == s[0]);
            }
        }
        lemma_run_of_slug_prefix(p);
        let c = s.last();
        if is_alnum(c) {
            if p.len() > 0 && p.last() == '-' {
                assert(p.len() >= 2) by {
                    assert(is_alnum(p[0]));
                }
                assert(p.drop_last().push('-').push(c) =~= s);
            } else {
                assert(p.push(c) =~= s);
            }
        } else {
            assert(c == '-');
            assert(s.len() >= 2) by {
                assert(is_alnum(s[0]));
            }
            assert(s[s.len() - 2] != '-');
            assert(p.last() == s[s.len() - 2]);
        }
    }
}

/// Collapsing is idempotent: collapsing a collapsed text changes nothing.
pub proof fn lemma_collapse_idempotent(t: Seq<char>)
    requires
        !is_alnum('-'),
    ensures
        collapse(collapse(t)) == collapse(t),
{
    let s = collapse(t);
    lemma_run_is_slug(t);
    lemma_run_of_slug_prefix(s);
}

/// Slugifying a slug gives it back, for every text whose slug is left
/// unchanged by lower-casing (lower-casing is not idempotent on every
/// Unicode string, and nothing here can show that it is on this one).
pub proof fn lemma_slug_idempotent(s: Seq<char>)
    requires
        !is_alnum('-'),
        lower_of(slug_of(s)) == slug_of(s),
    ensures
        slug_of(slug_of(s)) == slug_of(s),
{
    lemma_collapse_idempotent(lower_of(s));
}

/// Collapses runs of characters that are not alphanumeric into single
/// hyphens and drops them at both ends.
pub fn collapse_separators(t: &str) -> (r: String)
    ensures
        r@ == collapse(t@),
{
    let cs = chars_of(t);
    let mut out = String::new();
    let mut pending = false;
    let mut started = false;
    let mut i: usize = 0;
    while i < cs.len()
        invariant
            cs@ == t@,
            i <= cs.len(),
            (out@, pending) == slug_run(t@.take(i as int)),
            started == (out@.len() > 0),
        decreases cs.len() - i,
    {
        let c = cs[i];
        assert(t@.take(i as int + 1).drop_last() == t@.take(i as int));
        if alphanumeric(c) {
            if pending && started {
                push_char(&mut out, '-');
            }
            push_char(&mut out, c);
            pending = false;
            started = true;
        } else {
            pending = true;
        }
        i = i + 1;
    }
    assert(t@.take(cs.len() as int) == t@);
    out
}

/// The anchor slug of a title: lower-cased, with every run of characters
/// that are not alphanumeric turned into one hyphen, trimmed at both ends.
/// Equal titles give equal slugs; nothing is done to tell them apart.
pub fn title_to_slug(title: &str) -> (r: String)
    ensures
        r@ == slug_of(title@),
{
    let lower = lowercase(title);
    collapse_separators(lower.as_str())
}


/// The slug tried for a post title on the given attempt: the title's slug
/// first, then the slug followed by `-1`, `-2`, ... until one is free.
pub fn slug_candidate(title: &str, attempt: u64) -> (r: String)
    ensures
        attempt == 0 ==> r@ == slug_of(title@),
        attempt > 0 ==> r@ == slug_of(title@) + "-"@ + decimal(attempt as nat),
{
    let mut s = title_to_slug(title);
    if attempt > 0 {
        s.append("-");
        push_decimal(&mut s, attempt);
    }
    s
}


/// What to do after looking up a candidate slug for a new post.
pub enum SlugDecision {
    /// The candidate is free: publish under it.
    Use(String),
    /// The candidate is taken: look up the candidate of this attempt next.
    TryNext(u64),
}

/// One step of finding a free slug for a title: attempt `attempt` proposed
/// `slug_candidate(title, attempt)`, and `taken` says whether a post has it.
pub fn decide_slug(title: &str, attempt: u64, taken: bool) -> (r: SlugDecision)
    requires
        attempt < u64::MAX,
    ensures
        !taken ==> (r matches SlugDecision::Use(s) && s@ == (if attempt == 0 {
            slug_of(title@)
        } else {
            slug_of(title@) + "-"@ + decimal(attempt as nat)
        })),
        taken ==> (r matches SlugDecision::TryNext(n) && n == attempt + 1),
{
    if taken {
        SlugDecision::TryNext(attempt + 1)
    } else {
        SlugDecision::Use(slug_candidate(title, attempt))
    }
}

} // verus!
