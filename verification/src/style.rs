//! Styling: wrapping a text fragment in colour codes, colour output forced
//! on for the whole run.

use vstd::prelude::*;
use crate::color::Rgb;

verus! {

/// Relies on the colored crate: `truecolor` and `on_truecolor` set the two
/// colours and rendering a `ColoredString` wraps the text in their codes,
/// with the crate's colour override forced on so that redirected output is
/// styled too. Which codes are emitted depends on the terminal environment
/// (truecolor support), so the contract states only what holds of every
/// outcome: with neither colour set the rendering is the text itself.
#[verifier::external_body]
pub fn style_text(text: &str, fg: Option<Rgb>, bg: Option<Rgb>) -> (r: String)
    ensures
        fg is None && bg is None ==> r@ == text@,
{
    colored::control::set_override(true);
    let base = match fg {
        Some(c) => colored::Colorize::truecolor(text, c.r, c.g, c.b),
        None => colored::Colorize::normal(text),
    };
    let full = match bg {
        Some(c) => colored::Colorize::on_truecolor(base, c.r, c.g, c.b),
        None => base,
    };
    format!("{}", full)
}

} // verus!
