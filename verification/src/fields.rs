//! Typed conversion of one raw field value into a concrete domain type:
//! integers, booleans in the format's `0` / `-1` encoding, timestamps,
//! colors, and borrowed text.

use vstd::prelude::*;
use vstd::string::StrSliceExecFns;
use crate::num::{hex_byte, hex_byte_spec, parse_u32, parse_u32_spec, parse_u8, parse_u8_spec};
use crate::text::str_eq;
use crate::timestamp::{parse_timestamp, parse_timestamp_spec, Timestamp};

verus! {

/// A field value that could not be converted to its target type, or a
/// required field that never resolved.
#[derive(Debug, Clone, Copy, PartialEq, Eq, Structural)]
pub struct InvalidValue;

/// One raw field of a data line. Only the last field of a line may
/// contain commas; the split that produces fields guarantees it.
#[derive(Default, Debug, Copy, Clone, Eq, PartialEq)]
pub struct LineField<'a>(&'a str);

impl<'a> View for LineField<'a> {
    type V = Seq<char>;

    closed spec fn view(&self) -> Seq<char> {
        self.0@
    }
}

/// A color in the format's `&H[AA]BBGGRR&` encoding, stored by channel.
#[derive(Debug, Copy, Clone, Eq, PartialEq, Structural)]
pub struct Color {
    pub a: u8,
    pub b: u8,
    pub g: u8,
    pub r: u8,
}

/// The boolean encoding of the format: exactly `0` is false and `-1` is
/// true; anything else, including `1`, fails.
pub open spec fn parse_bool_spec(s: Seq<char>) -> Option<bool> {
    if s == "0"@ {
        Some(false)
    } else if s == "-1"@ {
        Some(true)
    } else {
        None
    }
}

/// A color literal: `&H` then six or eight hexadecimal digits then `&`.
/// Two-digit groups are read left to right as blue, green, red and
/// alpha; with six digits the alpha channel defaults to 255.
pub open spec fn parse_color_spec(s: Seq<char>) -> Option<Color> {
    if s.len() >= 3 && s[0] == '&' && s[1] == 'H' && s.last() == '&' {
        let body = s.subrange(2, s.len() - 1);
        if body.len() == 6 {
            match (
                hex_byte_spec(body.subrange(0, 2)),
                hex_byte_spec(body.subrange(2, 4)),
                hex_byte_spec(body.subrange(4, 6)),
            ) {
                (Some(b), Some(g), Some(r)) => Some(Color { a: 255, b, g, r }),
                _ => None,
            }
        } else if body.len() == 8 {
            match (
                hex_byte_spec(body.subrange(0, 2)),
                hex_byte_spec(body.subrange(2, 4)),
                hex_byte_spec(body.subrange(4, 6)),
                hex_byte_spec(body.subrange(6, 8)),
            ) {
                (Some(a), Some(b), Some(g), Some(r)) => Some(Color { a, b, g, r }),
                _ => None,
            }
        } else {
            None
        }
    } else {
        None
    }
}

/// Law: a six-digit color payload always decodes with alpha 255,
/// whatever its digits hold.
pub proof fn lemma_color_six_digit_alpha(s: Seq<char>, c: Color)
    requires
        s.len() == 9,
        parse_color_spec(s) == Some(c),
    ensures
        c.a == 255,
{
}

/// Reads a color literal from a string slice.
pub fn parse_color(s: &str) -> (r: Option<Color>)
    ensures
        r == parse_color_spec(s@),
{
    let len = s.unicode_len();
    if len < 3 || s.get_char(0) != '&' || s.get_char(1) != 'H' || s.get_char(len - 1) != '&' {
        return None;
    }
    let body = s.substring_char(2, len - 1);
    let blen = body.unicode_len();
    if blen == 6 {
        let b = hex_byte(body.substring_char(0, 2));
        let g = hex_byte(body.substring_char(2, 4));
        let r = hex_byte(body.substring_char(4, 6));
        proof {
            assert(body@.subrange(0, 2) =~= s@.subrange(2, s@.len() - 1).subrange(0, 2));
            assert(body@.subrange(2, 4) =~= s@.subrange(2, s@.len() - 1).subrange(2, 4));
            assert(body@.subrange(4, 6) =~= s@.subrange(2, s@.len() - 1).subrange(4, 6));
        }
        match (b, g, r) {
            (Some(b), Some(g), Some(r)) => Some(Color { a: 255, b, g, r }),
            _ => None,
        }
    } else if blen == 8 {
        let a = hex_byte(body.substring_char(0, 2));
        let b = hex_byte(body.substring_char(2, 4));
        let g = hex_byte(body.substring_char(4, 6));
        let r = hex_byte(body.substring_char(6, 8));
        proof {
            assert(body@.subrange(0, 2) =~= s@.subrange(2, s@.len() - 1).subrange(0, 2));
            assert(body@.subrange(2, 4) =~= s@.subrange(2, s@.len() - 1).subrange(2, 4));
            assert(body@.subrange(4, 6) =~= s@.subrange(2, s@.len() - 1).subrange(4, 6));
            assert(body@.subrange(6, 8) =~= s@.subrange(2, s@.len() - 1).subrange(6, 8));
        }
        match (a, b, g, r) {
            (Some(a), Some(b), Some(g), Some(r)) => Some(Color { a, b, g, r }),
            _ => None,
        }
    } else {
        None
    }
}

/// Reads a boolean in the `0` / `-1` encoding.
pub fn parse_bool(s: &str) -> (r: Option<bool>)
    ensures
        r == parse_bool_spec(s@),
{
    if str_eq(s, "0") {
        Some(false)
    } else if str_eq(s, "-1") {
        Some(true)
    } else {
        None
    }
}

impl<'a> LineField<'a> {
    pub fn new(s: &'a str) -> (f: Self)
        ensures
            f@ == s@,
    {
        LineField(s)
    }

    /// The raw text of the field, a view into the original input.
    pub fn value(&self) -> (r: &'a str)
        ensures
            r@ == self@,
    {
        self.0
    }

    /// Converts the field to an unsigned integer.
    pub fn to_u32(&self) -> (r: Result<u32, InvalidValue>)
        ensures
            match r {
                Ok(v) => parse_u32_spec(self@) == Some(v),
                Err(_) => parse_u32_spec(self@) is None,
            },
    {
        match parse_u32(self.0) {
            Some(v) => Ok(v),
            None => Err(InvalidValue),
        }
    }

    /// Converts the field to a small unsigned integer.
    pub fn to_u8(&self) -> (r: Result<u8, InvalidValue>)
        ensures
            match r {
                Ok(v) => parse_u8_spec(self@) == Some(v),
                Err(_) => parse_u8_spec(self@) is None,
            },
    {
        match parse_u8(self.0) {
            Some(v) => Ok(v),
            None => Err(InvalidValue),
        }
    }

    /// Converts the field to a boolean in the `0` / `-1` encoding.
    pub fn to_bool(&self) -> (r: Result<bool, InvalidValue>)
        ensures
            match r {
                Ok(v) => parse_bool_spec(self@) == Some(v),
                Err(_) => parse_bool_spec(self@) is None,
            },
    {
        match parse_bool(self.0) {
            Some(v) => Ok(v),
            None => Err(InvalidValue),
        }
    }

    /// Converts the field to a color literal.
    pub fn to_color(&self) -> (r: Result<Color, InvalidValue>)
        ensures
            match r {
                Ok(v) => parse_color_spec(self@) == Some(v),
                Err(_) => parse_color_spec(self@) is None,
            },
    {
        match parse_color(self.0) {
            Some(v) => Ok(v),
            None => Err(InvalidValue),
        }
    }

    /// Converts the field to a timestamp.
    pub fn to_timestamp(&self) -> (r: Result<Timestamp, InvalidValue>)
        ensures
            match r {
                Ok(v) => parse_timestamp_spec(self@) == Some(v@),
                Err(_) => parse_timestamp_spec(self@) is None,
            },
    {
        match parse_timestamp(self.0) {
            Some(ms) => Ok(Timestamp { millis: ms }),
            None => Err(InvalidValue),
        }
    }
}

} // verus!
