//! Declarations trusted without proof: contracts for the outside functions
//! the library calls (byteorder's fixed-width reads, termion's color escape
//! constants) and for one `std` method that vstd leaves unspecified.

use vstd::prelude::*;

use crate::numfmt::be_val;
use crate::numfmt::le_val;

verus! {

/// Relies on std's String::push: appends the given character to the end of
/// the string.
pub assume_specification[ String::push ](s: &mut String, c: char)
    ensures
        final(s)@ == old(s)@.push(c),
;

/// Relies on byteorder::BigEndian::read_u16: the first two bytes of the
/// slice as an unsigned integer, most significant byte first.
#[verifier::external_body]
pub(crate) fn read_u16_be(buf: &[u8]) -> (r: u16)
    requires
        buf@.len() >= 2,
    ensures
        r as nat == be_val(buf@.subrange(0, 2)),
{
    <byteorder::BigEndian as byteorder::ByteOrder>::read_u16(buf)
}

/// Relies on byteorder::BigEndian::read_u32: the first four bytes of the
/// slice as an unsigned integer, most significant byte first.
#[verifier::external_body]
pub(crate) fn read_u32_be(buf: &[u8]) -> (r: u32)
    requires
        buf@.len() >= 4,
    ensures
        r as nat == be_val(buf@.subrange(0, 4)),
{
    <byteorder::BigEndian as byteorder::ByteOrder>::read_u32(buf)
}

/// Relies on byteorder::BigEndian::read_u64: the first eight bytes of the
/// slice as an unsigned integer, most significant byte first.
#[verifier::external_body]
pub(crate) fn read_u64_be(buf: &[u8]) -> (r: u64)
    requires
        buf@.len() >= 8,
    ensures
        r as nat == be_val(buf@.subrange(0, 8)),
{
    <byteorder::BigEndian as byteorder::ByteOrder>::read_u64(buf)
}

/// Relies on byteorder::LittleEndian::read_u16: the first two bytes of the
/// slice as an unsigned integer, least significant byte first.
#[verifier::external_body]
pub(crate) fn read_u16_le(buf: &[u8]) -> (r: u16)
    requires
        buf@.len() >= 2,
    ensures
        r as nat == le_val(buf@.subrange(0, 2)),
{
    <byteorder::LittleEndian as byteorder::ByteOrder>::read_u16(buf)
}

/// Relies on byteorder::LittleEndian::read_u32: the first four bytes of the
/// slice as an unsigned integer, least significant byte first.
#[verifier::external_body]
pub(crate) fn read_u32_le(buf: &[u8]) -> (r: u32)
    requires
        buf@.len() >= 4,
    ensures
        r as nat == le_val(buf@.subrange(0, 4)),
{
    <byteorder::LittleEndian as byteorder::ByteOrder>::read_u32(buf)
}

/// Relies on byteorder::LittleEndian::read_u64: the first eight bytes of
/// the slice as an unsigned integer, least significant byte first.
#[verifier::external_body]
pub(crate) fn read_u64_le(buf: &[u8]) -> (r: u64)
    requires
        buf@.len() >= 8,
    ensures
        r as nat == le_val(buf@.subrange(0, 8)),
{
    <byteorder::LittleEndian as byteorder::ByteOrder>::read_u64(buf)
}

/// Relies on termion::color::Blue::fg_str: the escape that sets the
/// foreground to palette color 4.
#[verifier::external_body]
pub(crate) fn fg_blue() -> (r: &'static str)
    ensures
        r@ == seq!['\u{1b}', '[', '3', '8', ';', '5', ';', '4', 'm'],
{
    termion::color::Blue.fg_str()
}

/// Relies on termion::color::Cyan::fg_str: the escape that sets the
/// foreground to palette color 6.
#[verifier::external_body]
pub(crate) fn fg_cyan() -> (r: &'static str)
    ensures
        r@ == seq!['\u{1b}', '[', '3', '8', ';', '5', ';', '6', 'm'],
{
    termion::color::Cyan.fg_str()
}

/// Relies on termion::color::Green::fg_str: the escape that sets the
/// foreground to palette color 2.
#[verifier::external_body]
pub(crate) fn fg_green() -> (r: &'static str)
    ensures
        r@ == seq!['\u{1b}', '[', '3', '8', ';', '5', ';', '2', 'm'],
{
    termion::color::Green.fg_str()
}

/// Relies on termion::color::Magenta::fg_str: the escape that sets the
/// foreground to palette color 5.
#[verifier::external_body]
pub(crate) fn fg_magenta() -> (r: &'static str)
    ensures
        r@ == seq!['\u{1b}', '[', '3', '8', ';', '5', ';', '5', 'm'],
{
    termion::color::Magenta.fg_str()
}

/// Relies on termion::color::Red::fg_str: the escape that sets the
/// foreground to palette color 1.
#[verifier::external_body]
pub(crate) fn fg_red() -> (r: &'static str)
    ensures
        r@ == seq!['\u{1b}', '[', '3', '8', ';', '5', ';', '1', 'm'],
{
    termion::color::Red.fg_str()
}

/// Relies on termion::color::Yellow::fg_str: the escape that sets the
/// foreground to palette color 3.
#[verifier::external_body]
pub(crate) fn fg_yellow() -> (r: &'static str)
    ensures
        r@ == seq!['\u{1b}', '[', '3', '8', ';', '5', ';', '3', 'm'],
{
    termion::color::Yellow.fg_str()
}

/// Relies on termion::color::White::fg_str: the escape that sets the
/// foreground to palette color 7.
#[verifier::external_body]
pub(crate) fn fg_white() -> (r: &'static str)
    ensures
        r@ == seq!['\u{1b}', '[', '3', '8', ';', '5', ';', '7', 'm'],
{
    termion::color::White.fg_str()
}

/// Relies on termion::color::Reset::fg_str: the escape that restores the
/// default foreground color.
#[verifier::external_body]
pub(crate) fn fg_reset() -> (r: &'static str)
    ensures
        r@ == seq!['\u{1b}', '[', '3', '9', 'm'],
{
    termion::color::Reset.fg_str()
}

} // verus!
