//! Terminal escape sequences, obtained from termion.
//!
//! Each function here hands out one constant ANSI/VT escape sequence and is
//! trusted: its body calls into termion, and its contract states the exact
//! character sequence that termion's source defines for that escape. The
//! renderer builds every frame out of these sequences, so the specification
//! names each of them as a spec-level constant.
use vstd::prelude::*;

verus! {

/// The escape that selects red foreground (ANSI 256-color 1).
pub open spec fn red_fg() -> Seq<char> {
    "\u{1b}[38;5;1m"@
}

/// The escape that selects yellow foreground (ANSI 256-color 3).
pub open spec fn yellow_fg() -> Seq<char> {
    "\u{1b}[38;5;3m"@
}

/// The escape that selects white foreground (ANSI 256-color 7).
pub open spec fn white_fg() -> Seq<char> {
    "\u{1b}[38;5;7m"@
}

/// The escape that selects green foreground (ANSI 256-color 2).
pub open spec fn green_fg() -> Seq<char> {
    "\u{1b}[38;5;2m"@
}

/// The escape that resets the foreground color to the default.
pub open spec fn reset_fg() -> Seq<char> {
    "\u{1b}[39m"@
}

/// The escape that clears the entire screen.
pub open spec fn clear_all() -> Seq<char> {
    "\u{1b}[2J"@
}

/// The escape that moves the cursor to the top-left origin.
pub open spec fn goto_origin() -> Seq<char> {
    "\u{1b}[1;1H"@
}

/// Relies on termion::color::Red::fg_str, which returns the constant
/// foreground escape `csi!("38;5;1m")`, i.e. `"\x1B[38;5;1m"`.
#[verifier::external_body]
pub(crate) fn term_red_fg() -> (r: &'static str)
    ensures
        r@ == red_fg(),
{
    termion::color::Red.fg_str()
}

/// Relies on termion::color::Yellow::fg_str, which returns the constant
/// foreground escape `csi!("38;5;3m")`, i.e. `"\x1B[38;5;3m"`.
#[verifier::external_body]
pub(crate) fn term_yellow_fg() -> (r: &'static str)
    ensures
        r@ == yellow_fg(),
{
    termion::color::Yellow.fg_str()
}

/// Relies on termion::color::White::fg_str, which returns the constant
/// foreground escape `csi!("38;5;7m")`, i.e. `"\x1B[38;5;7m"`.
#[verifier::external_body]
pub(crate) fn term_white_fg() -> (r: &'static str)
    ensures
        r@ == white_fg(),
{
    termion::color::White.fg_str()
}

/// Relies on termion::color::Green::fg_str, which returns the constant
/// foreground escape `csi!("38;5;2m")`, i.e. `"\x1B[38;5;2m"`.
#[verifier::external_body]
pub(crate) fn term_green_fg() -> (r: &'static str)
    ensures
        r@ == green_fg(),
{
    termion::color::Green.fg_str()
}

/// Relies on termion::color::Reset::fg_str, which returns the constant
/// reset escape `csi!("39m")`, i.e. `"\x1B[39m"`.
#[verifier::external_body]
pub(crate) fn term_reset_fg() -> (r: &'static str)
    ensures
        r@ == reset_fg(),
{
    termion::color::Reset.fg_str()
}

/// Relies on termion::clear::All's `AsRef<str>`, which returns the constant
/// clear-screen escape `csi!("2J")`, i.e. `"\x1B[2J"`.
#[verifier::external_body]
pub(crate) fn term_clear_all() -> (r: &'static str)
    ensures
        r@ == clear_all(),
{
    termion::clear::All.as_ref()
}

/// Relies on `String::from(termion::cursor::Goto(1, 1))`, which formats the
/// one-based cursor-position escape `"\x1B[1;1H"` from its two arguments.
#[verifier::external_body]
pub(crate) fn term_goto_origin() -> (r: String)
    ensures
        r@ == goto_origin(),
{
    String::from(termion::cursor::Goto(1, 1))
}

} // verus!
