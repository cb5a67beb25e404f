//! Checks and normal forms of what users type in.

use vstd::prelude::*;
use crate::slug::{lower_of, lowercase};

verus! {

/// What `str::trim` leaves of a string.
pub uninterp spec fn trimmed(s: Seq<char>) -> Seq<char>;

/// What compiling `pattern` with the regex crate and matching it against
/// `text` gives: `None` where the pattern does not compile.
pub uninterp spec fn regex_outcome(pattern: Seq<char>, text: Seq<char>) -> Option<bool>;

/// Relies on `str::trim`: the string without leading and trailing white
/// space, which depends on the characters alone.
#[verifier::external_body]
fn trim(s: &str) -> (r: &str)
    ensures
        r@ == trimmed(s@),
{
    s.trim()
}

/// Relies on `regex::Regex::new` and `Regex::is_match`: whether `text`
/// holds a match of `pattern`, or `None` where the pattern does not compile.
#[verifier::external_body]
fn regex_matches(pattern: &str, text: &str) -> (r: Option<bool>)
    ensures
        r == regex_outcome(pattern@, text@),
{
    match regex::Regex::new(pattern) {
        Ok(re) => Some(re.is_match(text)),
        Err(_) => None,
    }
}

pub const EMAIL_PATTERN: &'static str = r"^[a-zA-Z0-9_.+-]+@[a-zA-Z0-9-]+\.[a-zA-Z0-9-.]+$";

pub const USERNAME_PATTERN: &'static str = r"^[a-zA-Z0-9_]+$";

pub const PASSWORD_PATTERN: &'static str = r#"^[a-zA-Z0-9!@#$%^&*()_+\-=\[\]{};':\"\\|,.<>\/?~ ]+$"#;

fn matched(pattern: &str, text: &str) -> (r: bool)
    ensures
        r == (regex_outcome(pattern@, text@) == Some(true)),
{
    match regex_matches(pattern, text) {
        Some(b) => b,
        None => false,
    }
}

/// An address of the form `local@domain.tld` in the characters that the
/// email pattern allows.
pub fn is_valid_email(email: &str) -> (r: bool)
    ensures
        r == (regex_outcome(EMAIL_PATTERN@, email@) == Some(true)),
{
    matched(EMAIL_PATTERN, email)
}

/// The form in which addresses are stored: trimmed and lower-cased.
pub fn normalize_email(email: &str) -> (r: String)
    ensures
        r@ == lower_of(trimmed(email@)),
{
    lowercase(trim(email))
}

/// 3 to 100 bytes of ASCII letters, digits and underscores.
pub fn is_valid_username(username: &str) -> (r: bool)
    ensures
        r == (3 <= username.len() <= 100 && regex_outcome(USERNAME_PATTERN@, username@) == Some(true)),
{
    username.len() >= 3 && username.len() <= 100 && matched(USERNAME_PATTERN, username)
}

/// 3 to 100 bytes of the characters that the password pattern allows.
pub fn is_valid_password(password: &str) -> (r: bool)
    ensures
        r == (regex_outcome(PASSWORD_PATTERN@, password@) == Some(true) && 3 <= password.len() <= 100),
{
    matched(PASSWORD_PATTERN, password) && password.len() >= 3 && password.len() <= 100
}

} // verus!
