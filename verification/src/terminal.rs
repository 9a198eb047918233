use vstd::prelude::*;

verus! {

/// The character of the decimal digit `d`.
pub open spec fn digit_char(d: nat) -> char {
    if d == 0 {
        '0'
    } else if d == 1 {
        '1'
    } else if d == 2 {
        '2'
    } else if d == 3 {
        '3'
    } else if d == 4 {
        '4'
    } else if d == 5 {
        '5'
    } else if d == 6 {
        '6'
    } else if d == 7 {
        '7'
    } else if d == 8 {
        '8'
    } else {
        '9'
    }
}

/// `n` written in decimal, as `Display` writes an unsigned integer.
pub open spec fn decimal(n: nat) -> Seq<char>
    decreases n,
{
    if n < 10 {
        seq![digit_char(n)]
    } else {
        decimal(n / 10).push(digit_char(n % 10))
    }
}

/// A control sequence: escape, `[`, then `body`.
pub open spec fn csi(body: Seq<char>) -> Seq<char> {
    seq!['\x1b', '['] + body
}

/// The control sequence that moves the cursor to column `x`, row `y`
/// (both counted from one).
pub open spec fn goto_text(x: int, y: int) -> Seq<char> {
    csi(decimal(y as nat) + seq![';'] + decimal(x as nat) + seq!['H'])
}

pub open spec fn hide_text() -> Seq<char> {
    csi(seq!['?', '2', '5', 'l'])
}

pub open spec fn show_text() -> Seq<char> {
    csi(seq!['?', '2', '5', 'h'])
}

pub open spec fn clear_all_text() -> Seq<char> {
    csi(seq!['2', 'J'])
}

pub open spec fn clear_after_text() -> Seq<char> {
    csi(seq!['J'])
}

pub open spec fn underline_text() -> Seq<char> {
    csi(seq!['4', 'm'])
}

pub open spec fn no_underline_text() -> Seq<char> {
    csi(seq!['2', '4', 'm'])
}

pub open spec fn reset_fg_text() -> Seq<char> {
    csi(seq!['3', '9', 'm'])
}

pub open spec fn reset_bg_text() -> Seq<char> {
    csi(seq!['4', '9', 'm'])
}

/// `termion::cursor::Goto(x, y)` as text. Its `Display` impl writes escape,
/// `[`, `y` and `x` in decimal around a `;`, and `H`; it asserts (in debug
/// builds) that the position is not `(0, 0)`.
#[verifier::external_body]
pub(crate) fn goto(x: u16, y: u16) -> (r: Vec<char>)
    requires
        x != 0 || y != 0,
    ensures
        r@ == goto_text(x as int, y as int),
{
    termion::cursor::Goto(x, y).to_string().chars().collect()
}

/// `termion::cursor::Hide` as text: escape, `[?25l`.
#[verifier::external_body]
pub(crate) fn hide_cursor() -> (r: Vec<char>)
    ensures
        r@ == hide_text(),
{
    let s: &str = termion::cursor::Hide.as_ref();
    s.chars().collect()
}

/// `termion::cursor::Show` as text: escape, `[?25h`.
#[verifier::external_body]
pub(crate) fn show_cursor() -> (r: Vec<char>)
    ensures
        r@ == show_text(),
{
    let s: &str = termion::cursor::Show.as_ref();
    s.chars().collect()
}

/// `termion::clear::All` as text: escape, `[2J`.
#[verifier::external_body]
pub(crate) fn clear_all() -> (r: Vec<char>)
    ensures
        r@ == clear_all_text(),
{
    let s: &str = termion::clear::All.as_ref();
    s.chars().collect()
}

/// `termion::clear::AfterCursor` as text: escape, `[J`.
#[verifier::external_body]
pub(crate) fn clear_after_cursor() -> (r: Vec<char>)
    ensures
        r@ == clear_after_text(),
{
    let s: &str = termion::clear::AfterCursor.as_ref();
    s.chars().collect()
}

/// `termion::style::Underline` as text: escape, `[4m`.
#[verifier::external_body]
pub(crate) fn underline() -> (r: Vec<char>)
    ensures
        r@ == underline_text(),
{
    let s: &str = termion::style::Underline.as_ref();
    s.chars().collect()
}

/// `termion::style::NoUnderline` as text: escape, `[24m`.
#[verifier::external_body]
pub(crate) fn no_underline() -> (r: Vec<char>)
    ensures
        r@ == no_underline_text(),
{
    let s: &str = termion::style::NoUnderline.as_ref();
    s.chars().collect()
}

/// `termion::color::Reset.fg_str()`: escape, `[39m`.
#[verifier::external_body]
pub(crate) fn reset_fg() -> (r: Vec<char>)
    ensures
        r@ == reset_fg_text(),
{
    termion::color::Reset.fg_str().chars().collect()
}

/// `termion::color::Reset.bg_str()`: escape, `[49m`.
#[verifier::external_body]
pub(crate) fn reset_bg() -> (r: Vec<char>)
    ensures
        r@ == reset_bg_text(),
{
    termion::color::Reset.bg_str().chars().collect()
}

/// The decimal digit `d` as a character.
pub fn digit(d: usize) -> (c: char)
    requires
        d < 10,
    ensures
        c == digit_char(d as nat),
{
    if d == 0 {
        '0'
    } else if d == 1 {
        '1'
    } else if d == 2 {
        '2'
    } else if d == 3 {
        '3'
    } else if d == 4 {
        '4'
    } else if d == 5 {
        '5'
    } else if d == 6 {
        '6'
    } else if d == 7 {
        '7'
    } else if d == 8 {
        '8'
    } else {
        '9'
    }
}

/// `n` written in decimal.
pub fn decimal_of(n: usize) -> (r: Vec<char>)
    ensures
        r@ == decimal(n as nat),
    decreases n,
{
    if n < 10 {
        let mut r = Vec::new();
        r.push(digit(n));
        assert(r@ =~= seq![digit_char(n as nat)]);
        r
    } else {
        let mut r = decimal_of(n / 10);
        r.push(digit(n % 10));
        r
    }
}

} // verus!
