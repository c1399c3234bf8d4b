//! The control sequences that steer the terminal, and the text sink that
//! collects what is to be sent to it.

use vstd::prelude::*;
use vstd::string::StringExecFns;

verus! {

/// The character that starts a control sequence.
pub open spec fn esc() -> char {
    '\x1b'
}

/// The ten digits.
pub open spec fn digits() -> Seq<char> {
    seq!['0', '1', '2', '3', '4', '5', '6', '7', '8', '9']
}

/// A number in decimal notation, without sign or padding.
pub open spec fn decimal(n: nat) -> Seq<char>
    decreases n,
{
    if n < 10 {
        seq![digits()[n as int]]
    } else {
        decimal(n / 10).push(digits()[(n % 10) as int])
    }
}

/// The sequence that moves the cursor to column `x` of row `y`, both
/// counted from one.
pub open spec fn goto_sequence(x: u16, y: u16) -> Seq<char> {
    seq![esc(), '['] + decimal(y as nat) + seq![';'] + decimal(x as nat) + seq!['H']
}

/// The sequence that hides the cursor.
pub open spec fn hide_sequence() -> Seq<char> {
    seq![esc(), '[', '?', '2', '5', 'l']
}

/// The sequence that shows the cursor.
pub open spec fn show_sequence() -> Seq<char> {
    seq![esc(), '[', '?', '2', '5', 'h']
}

/// The sequence that clears the screen.
pub open spec fn clear_sequence() -> Seq<char> {
    seq![esc(), '[', '2', 'J']
}

/// The sequence that restores the default background.
pub open spec fn reset_background() -> Seq<char> {
    seq![esc(), '[', '4', '9', 'm']
}

/// The sequence that sets the background to entry `code` of the palette,
/// for a one-digit `code`.
pub open spec fn palette_background(code: char) -> Seq<char> {
    seq![esc(), '[', '4', '8', ';', '5', ';', code, 'm']
}

/// `termion::cursor::Goto` as text: the escape character, `[`, the row in
/// decimal, `;`, the column in decimal, `H`. The crate refuses to format
/// the position (0, 0), so that one is left out.
#[verifier::external_body]
pub(crate) fn goto(x: u16, y: u16) -> (s: String)
    requires
        x != 0 || y != 0,
    ensures
        s@ == goto_sequence(x, y),
{
    format!("{}", termion::cursor::Goto(x, y))
}

/// `termion::cursor::Hide` as text: the fixed sequence `ESC [ ? 2 5 l`.
#[verifier::external_body]
pub(crate) fn hide_cursor() -> (s: String)
    ensures
        s@ == hide_sequence(),
{
    format!("{}", termion::cursor::Hide)
}

/// `termion::cursor::Show` as text: the fixed sequence `ESC [ ? 2 5 h`.
#[verifier::external_body]
pub(crate) fn show_cursor() -> (s: String)
    ensures
        s@ == show_sequence(),
{
    format!("{}", termion::cursor::Show)
}

/// `termion::clear::All` as text: the fixed sequence `ESC [ 2 J`.
#[verifier::external_body]
pub(crate) fn clear_all() -> (s: String)
    ensures
        s@ == clear_sequence(),
{
    format!("{}", termion::clear::All)
}

/// `termion::color::Bg(termion::color::Reset)` as text: the fixed sequence
/// `ESC [ 4 9 m`.
#[verifier::external_body]
pub(crate) fn background_reset() -> (s: String)
    ensures
        s@ == reset_background(),
{
    format!("{}", termion::color::Bg(termion::color::Reset))
}

/// `termion::color::Bg(termion::color::Magenta)` as text: palette entry 5.
#[verifier::external_body]
pub(crate) fn background_magenta() -> (s: String)
    ensures
        s@ == palette_background('5'),
{
    format!("{}", termion::color::Bg(termion::color::Magenta))
}

/// `termion::color::Bg(termion::color::LightRed)` as text: palette entry 9.
#[verifier::external_body]
pub(crate) fn background_light_red() -> (s: String)
    ensures
        s@ == palette_background('9'),
{
    format!("{}", termion::color::Bg(termion::color::LightRed))
}

/// `termion::color::Bg(termion::color::Green)` as text: palette entry 2.
#[verifier::external_body]
pub(crate) fn background_green() -> (s: String)
    ensures
        s@ == palette_background('2'),
{
    format!("{}", termion::color::Bg(termion::color::Green))
}

/// `String::push`: appends one character to the text.
#[verifier::external_body]
pub(crate) fn push_char(out: &mut String, c: char)
    ensures
        final(out)@ == old(out)@.push(c),
{
    out.push(c)
}

/// Appends a piece of text to the sink.
pub fn emit(out: &mut String, piece: &String)
    ensures
        final(out)@ == old(out)@ + piece@,
{
    out.append(piece.as_str());
}

/// The digit for a number below ten.
fn digit_char(d: usize) -> (c: char)
    requires
        d < 10,
    ensures
        c == digits()[d as int],
{
    if d == 0 {
        '0'
    } else if d == 1 {
        '1'
    } else if d == 2 {
        '2'
    } else if d == 3 {
        '3'
    } else if d == 4 {
        '4'
    } else if d == 5 {
        '5'
    } else if d == 6 {
        '6'
    } else if d == 7 {
        '7'
    } else if d == 8 {
        '8'
    } else {
        '9'
    }
}

/// A number as decimal text.
pub fn decimal_text(n: usize) -> (s: String)
    ensures
        s@ == decimal(n as nat),
    decreases n,
{
    if n < 10 {
        let mut s = String::new();
        push_char(&mut s, digit_char(n));
        assert(s@ =~= decimal(n as nat));
        s
    } else {
        let mut s = decimal_text(n / 10);
        push_char(&mut s, digit_char(n % 10));
        s
    }
}

} // verus!
