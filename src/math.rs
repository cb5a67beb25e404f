//! Math typesetting through KaTeX.

use vstd::prelude::*;
use crate::events::opt_view;

verus! {

/// KaTeX's HTML for an inline formula, or `None` where KaTeX reports an error.
pub uninterp spec fn katex_inline(tex: Seq<char>) -> Option<Seq<char>>;

/// KaTeX's HTML for a display formula, or `None` where KaTeX reports an error.
pub uninterp spec fn katex_display(tex: Seq<char>) -> Option<Seq<char>>;

/// Relies on `katex::render`: KaTeX's HTML for the formula in inline mode, or
/// an error for input it cannot typeset. The outcome depends on the formula alone.
#[verifier::external_body]
pub fn render_inline_math(tex: &str) -> (r: Option<String>)
    ensures
        opt_view(r) == katex_inline(tex@),
{
    katex::render(tex).ok()
}

/// Relies on `katex::render_with_opts` with display mode set: KaTeX's HTML
/// for the formula as a display block, or an error for input it cannot
/// typeset. The outcome depends on the formula alone.
#[verifier::external_body]
pub fn render_display_math(tex: &str) -> (r: Option<String>)
    ensures
        opt_view(r) == katex_display(tex@),
{
    let mut opts = katex::Opts::default();
    opts.set_display_mode(true);
    katex::render_with_opts(tex, opts).ok()
}

} // verus!
