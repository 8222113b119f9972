use vstd::prelude::*;

use std::num::ParseIntError;
use vstd::string::StringSliceAdditionalSpecFns;

verus! {

/// The error of `u32::from_str_radix`, carried through as an opaque value.
#[verifier::external_type_specification]
#[verifier::external_body]
pub struct ExParseIntError(ParseIntError);

/// The value of an ASCII digit or letter as a digit in bases up to 36
/// (`0`-`9` are 0x30-0x39, then `a`-`z` (0x61-0x7A) or `A`-`Z` (0x41-0x5A)
/// for 10 to 35); 36 for any other byte.
pub open spec fn digit_value(b: u8) -> nat {
    if 0x30u8 <= b <= 0x39u8 {
        (b - 0x30u8) as nat
    } else if 0x61u8 <= b <= 0x7Au8 {
        (b - 0x61u8 + 10) as nat
    } else if 0x41u8 <= b <= 0x5Au8 {
        (b - 0x41u8 + 10) as nat
    } else {
        36
    }
}

/// The number that the digits `s` spell in base `radix`, most significant first.
pub open spec fn digits_value(s: Seq<u8>, radix: nat) -> nat
    decreases s.len(),
{
    if s.len() == 0 {
        0
    } else {
        digits_value(s.drop_last(), radix) * radix + digit_value(s.last())
    }
}

/// `s` without one leading `+` (0x2B).
pub open spec fn unsigned_digits(s: Seq<u8>) -> Seq<u8> {
    if s.len() > 0 && s[0] == 0x2Bu8 {
        s.drop_first()
    } else {
        s
    }
}

/// Whether `s` is an optional `+` followed by at least one digit of base
/// `radix`, spelling a number that fits in 32 bits.
pub open spec fn parses_u32(s: Seq<u8>, radix: nat) -> bool {
    let t = unsigned_digits(s);
    &&& t.len() > 0
    &&& forall|i: int| 0 <= i < t.len() ==> digit_value(#[trigger] t[i]) < radix
    &&& digits_value(t, radix) <= u32::MAX
}

/// Relies on u32::from_str_radix: `Ok` with the value of an optional `+`
/// followed by digits of the base (letters in either case), when there is at
/// least one digit and the value fits; `Err` otherwise. It panics for a base
/// outside 2 to 36.
#[verifier::external_body]
fn u32_from_str_radix(src: &str, radix: u32) -> (r: Result<u32, ParseIntError>)
    requires
        2 <= radix <= 36,
    ensures
        r is Ok <==> parses_u32(src.spec_bytes(), radix as nat),
        r is Ok ==> r->Ok_0 == digits_value(unsigned_digits(src.spec_bytes()), radix as nat),
{
    u32::from_str_radix(src, radix)
}

/// Relies on str::strip_prefix with the pattern "0x": the rest of the
/// string when it starts with those two bytes, `None` otherwise.
#[verifier::external_body]
fn strip_hex_prefix(src: &str) -> (r: Option<&str>)
    ensures
        r is Some <==> (src.spec_bytes().len() >= 2 && src.spec_bytes()[0] == 0x30u8
            && src.spec_bytes()[1] == 0x78u8),
        r matches Some(rest) ==> rest.spec_bytes() == src.spec_bytes().subrange(
            2,
            src.spec_bytes().len() as int,
        ),
{
    src.strip_prefix("0x")
}

/// The digits that `parse_color` reads in `s`, and their base: hexadecimal
/// after a leading `0x` (bytes 0x30, 0x78), decimal otherwise.
pub open spec fn color_digits(s: Seq<u8>) -> (Seq<u8>, nat) {
    if s.len() >= 2 && s[0] == 0x30u8 && s[1] == 0x78u8 {
        (s.subrange(2, s.len() as int), 16)
    } else {
        (s, 10)
    }
}

/// Reads a colour given as `0x` and hex digits, or as decimal digits.
pub fn parse_color(src: &str) -> (r: Result<u32, ParseIntError>)
    ensures
        r is Ok <==> parses_u32(color_digits(src.spec_bytes()).0, color_digits(src.spec_bytes()).1),
        r is Ok ==> r->Ok_0 == digits_value(
            unsigned_digits(color_digits(src.spec_bytes()).0),
            color_digits(src.spec_bytes()).1,
        ),
{
    match strip_hex_prefix(src) {
        Some(rest) => u32_from_str_radix(rest, 16),
        None => u32_from_str_radix(src, 10),
    }
}

/// The settings a front end runs the interpreter with.
pub struct Cli {
    /// Path to the program file.
    pub path: String,
    /// Colour of lit pixels, as `0xRRGGBB`.
    pub pixel_color: u32,
    /// Colour of the background, as `0xRRGGBB`.
    pub bg_color: u32,
    /// Screen pixels per interpreter pixel, along each axis.
    pub scale_factor: u32,
}

impl Cli {
    /// The red, green and blue bytes of a colour `0xRRGGBB`; higher bits
    /// are ignored.
    pub fn rgb_color(color: u32) -> (rgb: (u8, u8, u8))
        ensures
            rgb.0 == (color / 0x10000) % 0x100,
            rgb.1 == (color / 0x100) % 0x100,
            rgb.2 == color % 0x100,
    {
        let r = ((color & 0xFF0000) >> 16) as u8;
        let g = ((color & 0x00FF00) >> 8) as u8;
        let b = (color & 0x0000FF) as u8;
        assert(((color & 0xFF0000) >> 16) == (color / 0x10000) % 0x100) by (bit_vector);
        assert(((color & 0x00FF00) >> 8) == (color / 0x100) % 0x100) by (bit_vector);
        assert((color & 0x0000FF) == color % 0x100) by (bit_vector);
        (r, g, b)
    }
}

} // verus!
