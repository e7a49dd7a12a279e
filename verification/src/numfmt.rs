//! Numeric and character formatting: byte-order values, decimal and hex
//! digits, and the display mapping of raw bytes to printable characters.

use vstd::prelude::*;

verus! {

/// The unsigned value of a byte sequence read in big-endian order.
pub open spec fn be_val(s: Seq<u8>) -> nat
    decreases s.len(),
{
    if s.len() == 0 {
        0
    } else {
        be_val(s.drop_last()) * 256 + s.last() as nat
    }
}

/// The unsigned value of a byte sequence read in little-endian order.
pub open spec fn le_val(s: Seq<u8>) -> nat
    decreases s.len(),
{
    if s.len() == 0 {
        0
    } else {
        le_val(s.drop_first()) * 256 + s.first() as nat
    }
}

/// The decimal digit character for a value below ten.
pub open spec fn dec_digit(d: nat) -> char {
    if d == 0 {
        '0'
    } else if d == 1 {
        '1'
    } else if d == 2 {
        '2'
    } else if d == 3 {
        '3'
    } else if d == 4 {
        '4'
    } else if d == 5 {
        '5'
    } else if d == 6 {
        '6'
    } else if d == 7 {
        '7'
    } else if d == 8 {
        '8'
    } else {
        '9'
    }
}

/// The decimal rendering of a natural number, most significant digit
/// first, with no leading zeros (a single `'0'` for zero).
pub open spec fn dec_str(n: nat) -> Seq<char>
    decreases n,
{
    if n < 10 {
        seq![dec_digit(n)]
    } else {
        dec_str(n / 10).push(dec_digit(n % 10))
    }
}

/// The uppercase hex digit character for a value below sixteen.
pub open spec fn hex_digit(d: nat) -> char {
    if d < 10 {
        dec_digit(d)
    } else if d == 10 {
        'A'
    } else if d == 11 {
        'B'
    } else if d == 12 {
        'C'
    } else if d == 13 {
        'D'
    } else if d == 14 {
        'E'
    } else {
        'F'
    }
}

/// A byte as two uppercase hex digit characters.
pub open spec fn hex_byte_chars(b: u8) -> Seq<char> {
    seq![hex_digit(b as nat / 16), hex_digit(b as nat % 16)]
}

/// Characters that pass through the text rendering unchanged: ASCII
/// letters, digits, and a fixed allow-list of punctuation.
pub open spec fn allow_listed(c: char) -> bool {
    ||| 'a' as u32 <= c as u32 && c as u32 <= 'z' as u32
    ||| 'A' as u32 <= c as u32 && c as u32 <= 'Z' as u32
    ||| '0' as u32 <= c as u32 && c as u32 <= '9' as u32
    ||| c == ':' || c == ';' || c == '@' || c == '/' || c == '\\' || c == '|' || c == '?'
        || c == '!' || c == '+' || c == '*' || c == '.' || c == ',' || c == ' ' || c == '-'
        || c == '_' || c == '\'' || c == '"' || c == '=' || c == '(' || c == ')' || c == '{'
        || c == '}' || c == '[' || c == ']' || c == '&' || c == '>' || c == '<'
}

/// The display character for one raw byte of text: allow-listed characters
/// pass through; newline, carriage return and NUL become visible glyphs;
/// everything else becomes a single replacement glyph.
pub open spec fn make_ascii(c: char) -> char {
    if allow_listed(c) {
        c
    } else if c == '\n' {
        '\u{240a}'  // visible newline glyph
    } else if c == '\r' {
        '\u{240d}'  // visible carriage-return glyph
    } else if c == '\0' {
        '\u{2400}'  // visible NUL glyph
    } else {
        '\u{fffd}'  // replacement glyph
    }
}

/// Executable form of [`make_ascii`].
pub fn make_ascii_exec(c: char) -> (r: char)
    ensures
        r == make_ascii(c),
{
    let u = c as u32;
    if (97 <= u && u <= 122) || (65 <= u && u <= 90) || (48 <= u && u <= 57) {
        c
    } else if c == ':' || c == ';' || c == '@' || c == '/' || c == '\\' || c == '|' || c == '?'
        || c == '!' || c == '+' || c == '*' || c == '.' || c == ',' || c == ' ' || c == '-'
        || c == '_' || c == '\'' || c == '"' || c == '=' || c == '(' || c == ')' || c == '{'
        || c == '}' || c == '[' || c == ']' || c == '&' || c == '>' || c == '<' {
        c
    } else if c == '\n' {
        '\u{240a}'
    } else if c == '\r' {
        '\u{240d}'
    } else if c == '\0' {
        '\u{2400}'
    } else {
        '\u{fffd}'
    }
}

/// Executable decimal digit character.
fn dec_digit_exec(d: u64) -> (r: char)
    requires
        d < 10,
    ensures
        r == dec_digit(d as nat),
{
    if d == 0 {
        '0'
    } else if d == 1 {
        '1'
    } else if d == 2 {
        '2'
    } else if d == 3 {
        '3'
    } else if d == 4 {
        '4'
    } else if d == 5 {
        '5'
    } else if d == 6 {
        '6'
    } else if d == 7 {
        '7'
    } else if d == 8 {
        '8'
    } else {
        '9'
    }
}

/// Executable uppercase hex digit character.
fn hex_digit_exec(d: u8) -> (r: char)
    requires
        d < 16,
    ensures
        r == hex_digit(d as nat),
{
    if d < 10 {
        dec_digit_exec(d as u64)
    } else if d == 10 {
        'A'
    } else if d == 11 {
        'B'
    } else if d == 12 {
        'C'
    } else if d == 13 {
        'D'
    } else if d == 14 {
        'E'
    } else {
        'F'
    }
}

/// Appends the two uppercase hex digit characters of a byte.
pub fn push_hex_byte(out: &mut String, b: u8)
    ensures
        final(out)@ == old(out)@ + hex_byte_chars(b),
{
    out.push(hex_digit_exec(b / 16));
    out.push(hex_digit_exec(b % 16));
    proof {
        assert(out@ =~= old(out)@ + hex_byte_chars(b));
    }
}

/// Appends the decimal rendering of an unsigned value.
pub fn push_dec(out: &mut String, n: u64)
    ensures
        final(out)@ == old(out)@ + dec_str(n as nat),
    decreases n,
{
    if n < 10 {
        out.push(dec_digit_exec(n));
        proof {
            assert(out@ =~= old(out)@ + dec_str(n as nat));
        }
    } else {
        push_dec(out, n / 10);
        out.push(dec_digit_exec(n % 10));
        proof {
            assert(out@ =~= old(out)@ + dec_str(n as nat));
        }
    }
}

} // verus!
