//! Terminal styling through the `colored` crate, behind trusted wrappers.
//!
//! Whether styling is applied depends on the environment (terminal
//! detection, overrides), so no wrapper here promises a single outcome.
//! Each promises what holds of every outcome, read off `colored`'s
//! rendering: the text comes back unchanged, or wrapped in the style's
//! ANSI escape code and the reset code. When the text itself holds no
//! reset sequence it is wrapped verbatim; otherwise `colored` re-opens
//! the style after each embedded reset, so only the wrapping is stated.

use colored::Colorize;
use vstd::prelude::*;

verus! {

/// The ANSI reset sequence `ESC [0m`.
pub open spec fn esc_reset() -> Seq<u8> {
    seq![27u8, 91u8, 48u8, 109u8]
}

/// The ANSI escape code `ESC [34m` that opens blue foreground styling.
pub open spec fn esc_blue() -> Seq<u8> {
    seq![27u8, 91u8, 51u8, 52u8, 109u8]
}

/// The ANSI escape code `ESC [36m` that opens cyan foreground styling.
pub open spec fn esc_cyan() -> Seq<u8> {
    seq![27u8, 91u8, 51u8, 54u8, 109u8]
}

/// The ANSI escape code `ESC [31m` that opens red foreground styling.
pub open spec fn esc_red() -> Seq<u8> {
    seq![27u8, 91u8, 51u8, 49u8, 109u8]
}

/// The ANSI escape code `ESC [32m` that opens green foreground styling.
pub open spec fn esc_green() -> Seq<u8> {
    seq![27u8, 91u8, 51u8, 50u8, 109u8]
}

/// True when `s` nowhere contains the ANSI reset sequence.
pub open spec fn has_no_reset(s: Seq<u8>) -> bool {
    forall|i: int| 0 <= i && i + 4 <= s.len() ==> #[trigger] s.subrange(i, i + 4) != esc_reset()
}

/// `r` is `b` painted in the style that the escape code `sty` opens:
/// either `b` unchanged (styling off), or wrapped in `sty` and the reset
/// code, the wrapped text being `b` itself whenever `b` holds no reset
/// sequence.
pub open spec fn painted(sty: Seq<u8>, b: Seq<u8>, r: Seq<u8>) -> bool {
    r == b || exists|mid: Seq<u8>|
        r == sty + mid + esc_reset() && (has_no_reset(b) ==> mid == b)
}

/// Relies on `colored`'s `Colorize::blue` and the `ColoredString` display:
/// the text unchanged, or wrapped in `ESC [34m` and `ESC [0m`.
#[verifier::external_body]
pub(crate) fn paint_blue(b: &Vec<u8>) -> (r: Vec<u8>)
    ensures
        painted(esc_blue(), b@, r@),
{
    match std::str::from_utf8(b.as_slice()) {
        Ok(s) => s.blue().to_string().into_bytes(),
        Err(_) => b.clone(),
    }
}

/// Relies on `colored`'s `Colorize::cyan` and the `ColoredString` display:
/// the text unchanged, or wrapped in `ESC [36m` and `ESC [0m`.
#[verifier::external_body]
pub(crate) fn paint_cyan(b: &Vec<u8>) -> (r: Vec<u8>)
    ensures
        painted(esc_cyan(), b@, r@),
{
    match std::str::from_utf8(b.as_slice()) {
        Ok(s) => s.cyan().to_string().into_bytes(),
        Err(_) => b.clone(),
    }
}

/// Relies on `colored`'s `Colorize::red` and the `ColoredString` display:
/// the text unchanged, or wrapped in `ESC [31m` and `ESC [0m`.
#[verifier::external_body]
pub(crate) fn paint_red(b: &Vec<u8>) -> (r: Vec<u8>)
    ensures
        painted(esc_red(), b@, r@),
{
    match std::str::from_utf8(b.as_slice()) {
        Ok(s) => s.red().to_string().into_bytes(),
        Err(_) => b.clone(),
    }
}

/// Relies on `colored`'s `Colorize::green` and the `ColoredString` display:
/// the text unchanged, or wrapped in `ESC [32m` and `ESC [0m`.
#[verifier::external_body]
pub(crate) fn paint_green(b: &Vec<u8>) -> (r: Vec<u8>)
    ensures
        painted(esc_green(), b@, r@),
{
    match std::str::from_utf8(b.as_slice()) {
        Ok(s) => s.green().to_string().into_bytes(),
        Err(_) => b.clone(),
    }
}

} // verus!
