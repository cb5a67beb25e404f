//! The attribute part of a `Set-Cookie` style cookie string.

use vstd::prelude::*;
use crate::events::opt_view;
use crate::text::{chars_of, decimal, has_prefix, push_char, push_decimal, strip_prefix};

verus! {

/// Cookie attributes, each written as `;name=value` or `;flag`, in the order
/// in which they were added.
pub struct CookieAttributes {
    attr: String,
}

impl View for CookieAttributes {
    type V = Seq<char>;

    closed spec fn view(&self) -> Seq<char> {
        self.attr@
    }
}

impl CookieAttributes {
    /// No attributes.
    pub fn new() -> (r: Self)
        ensures
            r@ == Seq::<char>::empty(),
    {
        CookieAttributes { attr: String::new() }
    }

    /// Adds `;domain=<domain>`: the host to which the cookie is sent,
    /// subdomains included.
    pub fn _domain(&mut self, domain: &str) -> (r: &mut Self)
        ensures
            *final(self) == *final(r),
            r@ == old(self)@ + ";domain="@ + domain@,
    {
        self.attr.append(";domain=");
        self.attr.append(domain);
        self
    }

    /// Adds `;path=<path>`.
    pub fn path(&mut self, path: &str) -> (r: &mut Self)
        ensures
            *final(self) == *final(r),
            r@ == old(self)@ + ";path="@ + path@,
    {
        self.attr.append(";path=");
        self.attr.append(path);
        self
    }

    /// Adds `;max-age=<seconds>`, the seconds in decimal.
    pub fn max_age(&mut self, max_age_in_seconds: u64) -> (r: &mut Self)
        ensures
            *final(self) == *final(r),
            r@ == old(self)@ + ";max-age="@ + decimal(max_age_in_seconds as nat),
    {
        self.attr.append(";max-age=");
        push_decimal(&mut self.attr, max_age_in_seconds);
        self
    }

    /// Adds `;samesite=lax`: sent on same-site requests and top-level
    /// navigation.
    pub fn _same_site_lax(&mut self) -> (r: &mut Self)
        ensures
            *final(self) == *final(r),
            r@ == old(self)@ + ";samesite=lax"@,
    {
        self.attr.append(";samesite=lax");
        self
    }

    /// Adds `;samesite=strict`: never sent on cross-site requests.
    pub fn same_site_strict(&mut self) -> (r: &mut Self)
        ensures
            *final(self) == *final(r),
            r@ == old(self)@ + ";samesite=strict"@,
    {
        self.attr.append(";samesite=strict");
        self
    }

    /// Adds `;samesite=none`: sent on every request.
    pub fn _same_site_none(&mut self) -> (r: &mut Self)
        ensures
            *final(self) == *final(r),
            r@ == old(self)@ + ";samesite=none"@,
    {
        self.attr.append(";samesite=none");
        self
    }

    /// Adds `;secure`: sent over secure connections only.
    pub fn secure(&mut self) -> (r: &mut Self)
        ensures
            *final(self) == *final(r),
            r@ == old(self)@ + ";secure"@,
    {
        self.attr.append(";secure");
        self
    }

    /// The attributes as one string, to follow `key=value`.
    pub fn get_attributes_string(&self) -> (r: &str)
        ensures
            r@ == self@,
    {
        self.attr.as_str()
    }
}

/// The cookie string `key=value` followed by the attributes.
pub fn cookie_string(key: &str, value: &str, attr: &CookieAttributes) -> (r: String)
    ensures
        r@ == key@ + "="@ + value@ + attr@,
{
    let mut s = String::from_str(key);
    s.append("=");
    s.append(value);
    s.append(attr.get_attributes_string());
    s
}


/// What `str::trim_start` leaves of a string.
pub uninterp spec fn trimmed_start(s: Seq<char>) -> Seq<char>;

/// Relies on `str::trim_start`: the string without leading white space,
/// which depends on the characters alone.
#[verifier::external_body]
fn trim_start(s: &str) -> (r: &str)
    ensures
        r@ == trimmed_start(s@),
{
    s.trim_start()
}

/// The value in one `name=value` piece of a cookie string, where the piece,
/// without its leading white space, starts with `prefix` (`key=`).
pub open spec fn piece_value(piece: Seq<char>, prefix: Seq<char>) -> Option<Seq<char>> {
    let t = trimmed_start(piece);
    if has_prefix(t, prefix) {
        Some(t.skip(prefix.len() as int))
    } else {
        None
    }
}

/// Reading a cookie string: the current piece, and the value found in an
/// earlier piece, if any.
pub open spec fn cookie_run(s: Seq<char>, prefix: Seq<char>) -> (Seq<char>, Option<Seq<char>>)
    decreases s.len(),
{
    if s.len() == 0 {
        (Seq::empty(), None)
    } else {
        let (cur, found) = cookie_run(s.drop_last(), prefix);
        if s.last() == ';' {
            (Seq::empty(), if found is Some { found } else { piece_value(cur, prefix) })
        } else {
            (cur.push(s.last()), found)
        }
    }
}

/// The value of the first cookie named `key` in a `document.cookie` style
/// string: the pieces between `;` are tried in order.
pub open spec fn cookie_value(cookies: Seq<char>, key: Seq<char>) -> Option<Seq<char>> {
    let (cur, found) = cookie_run(cookies, key + "="@);
    if found is Some {
        found
    } else {
        piece_value(cur, key + "="@)
    }
}

fn value_in_piece(piece: &String, prefix: &str) -> (r: Option<String>)
    ensures
        opt_view(r) == piece_value(piece@, prefix@),
{
    let t = trim_start(piece.as_str());
    let r = strip_prefix(t, prefix);
    proof {
        if r is Some {
            assert(t@.skip(prefix@.len() as int) =~= r->0@);
        }
    }
    r
}

/// The value of the first cookie named `key` in `cookies`, a string of
/// `name=value` pairs separated by `;`.
pub fn find_cookie(cookies: &str, key: &str) -> (r: Option<String>)
    ensures
        opt_view(r) == cookie_value(cookies@, key@),
{
    let mut prefix = String::from_str(key);
    prefix.append("=");
    let cs = chars_of(cookies);
    let mut cur = String::new();
    let mut found: Option<String> = None;
    let mut i: usize = 0;
    while i < cs.len()
        invariant
            cs@ == cookies@,
            prefix@ == key@ + "="@,
            i <= cs.len(),
            (cur@, opt_view(found)) == cookie_run(cookies@.take(i as int), prefix@),
        decreases cs.len() - i,
    {
        assert(cookies@.take(i as int + 1).drop_last() =~= cookies@.take(i as int));
        if cs[i] == ';' {
            if found.is_none() {
                found = value_in_piece(&cur, prefix.as_str());
            }
            cur = String::new();
        } else {
            push_char(&mut cur, cs[i]);
        }
        i = i + 1;
    }
    assert(cookies@.take(cs.len() as int) =~= cookies@);
    match found {
        Some(v) => Some(v),
        None => value_in_piece(&cur, prefix.as_str()),
    }
}

} // verus!
