//! The style record: one line of a `V4+ Styles` section, decoded
//! through the schema-driven decoder. Columns that hold fractional
//! numbers (scales, angle, outline, shadow) keep their raw text here;
//! reading them as floating point is left to callers.

use vstd::prelude::*;
use crate::decode::{
    distinct_names, line_pairs, lookup_pairs, lookup_field, lemma_lookup_order_independent,
    schema_of_str, FromLine,
};
use crate::fields::{parse_bool_spec, parse_bool, parse_color_spec, parse_color, Color, InvalidValue, LineField};
use crate::num::{parse_u32, parse_u32_spec, parse_u8, parse_u8_spec};
use crate::text::splitn_on_str;

verus! {

/// How a style draws its border.
#[derive(Debug, Copy, Clone, Eq, PartialEq, Structural)]
pub enum BorderStyle {
    Outline,
    Opaque,
}

/// The border encoding: `1` is an outline, `3` an opaque box.
pub open spec fn border_style_decode(raw: Seq<char>) -> Option<BorderStyle> {
    match parse_u8_spec(raw) {
        Some(1u8) => Some(BorderStyle::Outline),
        Some(3u8) => Some(BorderStyle::Opaque),
        _ => None,
    }
}

impl BorderStyle {
    /// Reads the numeric border encoding.
    pub fn from_field(raw: &str) -> (r: Result<BorderStyle, InvalidValue>)
        ensures
            match r {
                Ok(v) => border_style_decode(raw@) == Some(v),
                Err(_) => border_style_decode(raw@) is None,
            },
    {
        match parse_u8(raw) {
            Some(1) => Ok(BorderStyle::Outline),
            Some(3) => Ok(BorderStyle::Opaque),
            _ => Err(InvalidValue),
        }
    }
}

/// Where a style anchors its text, numpad order.
#[derive(Debug, Copy, Clone, Eq, PartialEq, Structural)]
pub enum Alignment {
    TopLeft,
    TopCenter,
    TopRight,
    CenterLeft,
    CenterCenter,
    CenterRight,
    BottomLeft,
    BottomCenter,
    BottomRight,
}

/// The alignment encoding: digits 1 to 9 laid out as on a numeric pad.
pub open spec fn alignment_decode(raw: Seq<char>) -> Option<Alignment> {
    match parse_u8_spec(raw) {
        Some(1u8) => Some(Alignment::BottomLeft),
        Some(2u8) => Some(Alignment::BottomCenter),
        Some(3u8) => Some(Alignment::BottomRight),
        Some(4u8) => Some(Alignment::CenterLeft),
        Some(5u8) => Some(Alignment::CenterCenter),
        Some(6u8) => Some(Alignment::CenterRight),
        Some(7u8) => Some(Alignment::TopLeft),
        Some(8u8) => Some(Alignment::TopCenter),
        Some(9u8) => Some(Alignment::TopRight),
        _ => None,
    }
}

impl Alignment {
    /// Reads the numeric alignment encoding.
    pub fn from_field(raw: &str) -> (r: Result<Alignment, InvalidValue>)
        ensures
            match r {
                Ok(v) => alignment_decode(raw@) == Some(v),
                Err(_) => alignment_decode(raw@) is None,
            },
    {
        match parse_u8(raw) {
            Some(1) => Ok(Alignment::BottomLeft),
            Some(2) => Ok(Alignment::BottomCenter),
            Some(3) => Ok(Alignment::BottomRight),
            Some(4) => Ok(Alignment::CenterLeft),
            Some(5) => Ok(Alignment::CenterCenter),
            Some(6) => Ok(Alignment::CenterRight),
            Some(7) => Ok(Alignment::TopLeft),
            Some(8) => Ok(Alignment::TopCenter),
            Some(9) => Ok(Alignment::TopRight),
            _ => Err(InvalidValue),
        }
    }
}

/// One style entry. Every column is required: a style line missing any
/// declared column fails to decode.
#[derive(Debug, Clone, PartialEq)]
pub struct Style<'a> {
    pub name: LineField<'a>,
    pub font_name: LineField<'a>,
    pub font_size: u32,
    pub primary_color: Color,
    pub secondary_color: Color,
    pub outline_color: Color,
    pub background_color: Color,
    pub bold: bool,
    pub italic: bool,
    pub underline: bool,
    pub strikeout: bool,
    pub scale_x: &'a str,
    pub scale_y: &'a str,
    pub spacing: u32,
    pub angle: &'a str,
    pub border_style: BorderStyle,
    pub outline: &'a str,
    pub shadow: &'a str,
    pub alignment: Alignment,
    pub margin_l: u32,
    pub margin_r: u32,
    pub margin_v: u32,
    pub encoding: u32,
}

/// The mathematical shape of a style entry.
pub struct StyleModel {
    pub name: Seq<char>,
    pub font_name: Seq<char>,
    pub font_size: u32,
    pub primary_color: Color,
    pub secondary_color: Color,
    pub outline_color: Color,
    pub background_color: Color,
    pub bold: bool,
    pub italic: bool,
    pub underline: bool,
    pub strikeout: bool,
    pub scale_x: Seq<char>,
    pub scale_y: Seq<char>,
    pub spacing: u32,
    pub angle: Seq<char>,
    pub border_style: BorderStyle,
    pub outline: Seq<char>,
    pub shadow: Seq<char>,
    pub alignment: Alignment,
    pub margin_l: u32,
    pub margin_r: u32,
    pub margin_v: u32,
    pub encoding: u32,
}

impl<'a> View for Style<'a> {
    type V = StyleModel;

    open spec fn view(&self) -> StyleModel {
        StyleModel {
            name: self.name@,
            font_name: self.font_name@,
            font_size: self.font_size,
            primary_color: self.primary_color,
            secondary_color: self.secondary_color,
            outline_color: self.outline_color,
            background_color: self.background_color,
            bold: self.bold,
            italic: self.italic,
            underline: self.underline,
            strikeout: self.strikeout,
            scale_x: self.scale_x@,
            scale_y: self.scale_y@,
            spacing: self.spacing,
            angle: self.angle@,
            border_style: self.border_style,
            outline: self.outline@,
            shadow: self.shadow@,
            alignment: self.alignment,
            margin_l: self.margin_l,
            margin_r: self.margin_r,
            margin_v: self.margin_v,
            encoding: self.encoding,
        }
    }
}

pub open spec fn style_u32(pairs: Seq<(Seq<char>, Seq<char>)>, name: Seq<char>) -> Option<u32> {
    match lookup_pairs(pairs, name) {
        Some(raw) => parse_u32_spec(raw),
        None => None,
    }
}

pub open spec fn style_bool(pairs: Seq<(Seq<char>, Seq<char>)>, name: Seq<char>) -> Option<bool> {
    match lookup_pairs(pairs, name) {
        Some(raw) => parse_bool_spec(raw),
        None => None,
    }
}

pub open spec fn style_color(pairs: Seq<(Seq<char>, Seq<char>)>, name: Seq<char>) -> Option<
    Color,
> {
    match lookup_pairs(pairs, name) {
        Some(raw) => parse_color_spec(raw),
        None => None,
    }
}

/// Whether every style field resolves and converts.
pub open spec fn style_fields_ok(pairs: Seq<(Seq<char>, Seq<char>)>) -> bool {
    &&& lookup_pairs(pairs, "Name"@) is Some
    &&& lookup_pairs(pairs, "Fontname"@) is Some
    &&& style_u32(pairs, "Fontsize"@) is Some
    &&& style_color(pairs, "PrimaryColour"@) is Some
    &&& style_color(pairs, "SecondaryColour"@) is Some
    &&& style_color(pairs, "OutlineColor"@) is Some
    &&& style_color(pairs, "BackColour"@) is Some
    &&& style_bool(pairs, "Bold"@) is Some
    &&& style_bool(pairs, "Italic"@) is Some
    &&& style_bool(pairs, "Underline"@) is Some
    &&& style_bool(pairs, "Strikeout"@) is Some
    &&& lookup_pairs(pairs, "ScaleX"@) is Some
    &&& lookup_pairs(pairs, "ScaleY"@) is Some
    &&& style_u32(pairs, "Spacing"@) is Some
    &&& lookup_pairs(pairs, "Angle"@) is Some
    &&& ({
        match lookup_pairs(pairs, "BorderStyle"@) {
            Some(raw) => border_style_decode(raw) is Some,
            None => false,
        }
    })
    &&& lookup_pairs(pairs, "Outline"@) is Some
    &&& lookup_pairs(pairs, "Shadow"@) is Some
    &&& ({
        match lookup_pairs(pairs, "Alignment"@) {
            Some(raw) => alignment_decode(raw) is Some,
            None => false,
        }
    })
    &&& style_u32(pairs, "MarginL"@) is Some
    &&& style_u32(pairs, "MarginR"@) is Some
    &&& style_u32(pairs, "MarginV"@) is Some
    &&& style_u32(pairs, "Encoding"@) is Some
}

/// The style record the zipped pairs decode to; every field is
/// required, so any missing column or failed conversion rejects the
/// whole line.
pub open spec fn style_from_pairs(pairs: Seq<(Seq<char>, Seq<char>)>) -> Option<StyleModel> {
    if style_fields_ok(pairs) {
        Some(
            StyleModel {
                name: lookup_pairs(pairs, "Name"@)->Some_0,
                font_name: lookup_pairs(pairs, "Fontname"@)->Some_0,
                font_size: style_u32(pairs, "Fontsize"@)->Some_0,
                primary_color: style_color(pairs, "PrimaryColour"@)->Some_0,
                secondary_color: style_color(pairs, "SecondaryColour"@)->Some_0,
                outline_color: style_color(pairs, "OutlineColor"@)->Some_0,
                background_color: style_color(pairs, "BackColour"@)->Some_0,
                bold: style_bool(pairs, "Bold"@)->Some_0,
                italic: style_bool(pairs, "Italic"@)->Some_0,
                underline: style_bool(pairs, "Underline"@)->Some_0,
                strikeout: style_bool(pairs, "Strikeout"@)->Some_0,
                scale_x: lookup_pairs(pairs, "ScaleX"@)->Some_0,
                scale_y: lookup_pairs(pairs, "ScaleY"@)->Some_0,
                spacing: style_u32(pairs, "Spacing"@)->Some_0,
                angle: lookup_pairs(pairs, "Angle"@)->Some_0,
                border_style: border_style_decode(lookup_pairs(pairs, "BorderStyle"@)->Some_0)->Some_0,
                outline: lookup_pairs(pairs, "Outline"@)->Some_0,
                shadow: lookup_pairs(pairs, "Shadow"@)->Some_0,
                alignment: alignment_decode(lookup_pairs(pairs, "Alignment"@)->Some_0)->Some_0,
                margin_l: style_u32(pairs, "MarginL"@)->Some_0,
                margin_r: style_u32(pairs, "MarginR"@)->Some_0,
                margin_v: style_u32(pairs, "MarginV"@)->Some_0,
                encoding: style_u32(pairs, "Encoding"@)->Some_0,
            },
        )
    } else {
        None
    }
}

/// What one style line decodes to under one schema line.
pub open spec fn style_decode_spec(line: Seq<char>, format: Seq<char>) -> Option<StyleModel> {
    style_from_pairs(line_pairs(line, format))
}

/// Law: style decoding is order-independent with respect to the
/// schema, exactly as event decoding is.
pub proof fn lemma_style_decode_order_independent(
    p1: Seq<(Seq<char>, Seq<char>)>,
    p2: Seq<(Seq<char>, Seq<char>)>,
)
    requires
        distinct_names(p1),
        distinct_names(p2),
        p1.to_multiset() == p2.to_multiset(),
    ensures
        style_from_pairs(p1) == style_from_pairs(p2),
{
    lemma_lookup_order_independent(p1, p2, "Name"@);
    lemma_lookup_order_independent(p1, p2, "Fontname"@);
    lemma_lookup_order_independent(p1, p2, "Fontsize"@);
    lemma_lookup_order_independent(p1, p2, "PrimaryColour"@);
    lemma_lookup_order_independent(p1, p2, "SecondaryColour"@);
    lemma_lookup_order_independent(p1, p2, "OutlineColor"@);
    lemma_lookup_order_independent(p1, p2, "BackColour"@);
    lemma_lookup_order_independent(p1, p2, "Bold"@);
    lemma_lookup_order_independent(p1, p2, "Italic"@);
    lemma_lookup_order_independent(p1, p2, "Underline"@);
    lemma_lookup_order_independent(p1, p2, "Strikeout"@);
    lemma_lookup_order_independent(p1, p2, "ScaleX"@);
    lemma_lookup_order_independent(p1, p2, "ScaleY"@);
    lemma_lookup_order_independent(p1, p2, "Spacing"@);
    lemma_lookup_order_independent(p1, p2, "Angle"@);
    lemma_lookup_order_independent(p1, p2, "BorderStyle"@);
    lemma_lookup_order_independent(p1, p2, "Outline"@);
    lemma_lookup_order_independent(p1, p2, "Shadow"@);
    lemma_lookup_order_independent(p1, p2, "Alignment"@);
    lemma_lookup_order_independent(p1, p2, "MarginL"@);
    lemma_lookup_order_independent(p1, p2, "MarginR"@);
    lemma_lookup_order_independent(p1, p2, "MarginV"@);
    lemma_lookup_order_independent(p1, p2, "Encoding"@);
}

impl<'a> FromLine<'a> for Style<'a> {
    open spec fn line_decode(line: Seq<char>, format: Seq<char>) -> Option<StyleModel> {
        style_decode_spec(line, format)
    }

    fn from_line(item: &'a str, format: &str) -> (r: Result<Self, InvalidValue>) {
        let schema = schema_of_str(format);
        let values = splitn_on_str(item, ',', schema.len());

        let name = match lookup_field(&schema, &values, "Name") {
            Some(raw) => LineField::new(raw),
            None => {
                return Err(InvalidValue);
            },
        };
        let font_name = match lookup_field(&schema, &values, "Fontname") {
            Some(raw) => LineField::new(raw),
            None => {
                return Err(InvalidValue);
            },
        };
        let font_size = match lookup_field(&schema, &values, "Fontsize") {
            Some(raw) => match parse_u32(raw) {
                Some(v) => v,
                None => {
                    return Err(InvalidValue);
                },
            },
            None => {
                return Err(InvalidValue);
            },
        };
        let primary_color = match lookup_field(&schema, &values, "PrimaryColour") {
            Some(raw) => match parse_color(raw) {
                Some(v) => v,
                None => {
                    return Err(InvalidValue);
                },
            },
            None => {
                return Err(InvalidValue);
            },
        };
        let secondary_color = match lookup_field(&schema, &values, "SecondaryColour") {
            Some(raw) => match parse_color(raw) {
                Some(v) => v,
                None => {
                    return Err(InvalidValue);
                },
            },
            None => {
                return Err(InvalidValue);
            },
        };
        let outline_color = match lookup_field(&schema, &values, "OutlineColor") {
            Some(raw) => match parse_color(raw) {
                Some(v) => v,
                None => {
                    return Err(InvalidValue);
                },
            },
            None => {
                return Err(InvalidValue);
            },
        };
        let background_color = match lookup_field(&schema, &values, "BackColour") {
            Some(raw) => match parse_color(raw) {
                Some(v) => v,
                None => {
                    return Err(InvalidValue);
                },
            },
            None => {
                return Err(InvalidValue);
            },
        };
        let bold = match lookup_field(&schema, &values, "Bold") {
            Some(raw) => match parse_bool(raw) {
                Some(v) => v,
                None => {
                    return Err(InvalidValue);
                },
            },
            None => {
                return Err(InvalidValue);
            },
        };
        let italic = match lookup_field(&schema, &values, "Italic") {
            Some(raw) => match parse_bool(raw) {
                Some(v) => v,
                None => {
                    return Err(InvalidValue);
                },
            },
            None => {
                return Err(InvalidValue);
            },
        };
        let underline = match lookup_field(&schema, &values, "Underline") {
            Some(raw) => match parse_bool(raw) {
                Some(v) => v,
                None => {
                    return Err(InvalidValue);
                },
            },
            None => {
                return Err(InvalidValue);
            },
        };
        let strikeout = match lookup_field(&schema, &values, "Strikeout") {
            Some(raw) => match parse_bool(raw) {
                Some(v) => v,
                None => {
                    return Err(InvalidValue);
                },
            },
            None => {
                return Err(InvalidValue);
            },
        };
        let scale_x = match lookup_field(&schema, &values, "ScaleX") {
            Some(raw) => raw,
            None => {
                return Err(InvalidValue);
            },
        };
        let scale_y = match lookup_field(&schema, &values, "ScaleY") {
            Some(raw) => raw,
            None => {
                return Err(InvalidValue);
            },
        };
        let spacing = match lookup_field(&schema, &values, "Spacing") {
            Some(raw) => match parse_u32(raw) {
                Some(v) => v,
                None => {
                    return Err(InvalidValue);
                },
            },
            None => {
                return Err(InvalidValue);
            },
        };
        let angle = match lookup_field(&schema, &values, "Angle") {
            Some(raw) => raw,
            None => {
                return Err(InvalidValue);
            },
        };
        let border_style = match lookup_field(&schema, &values, "BorderStyle") {
            Some(raw) => match BorderStyle::from_field(raw) {
                Ok(v) => v,
                Err(_) => {
                    return Err(InvalidValue);
                },
            },
            None => {
                return Err(InvalidValue);
            },
        };
        let outline = match lookup_field(&schema, &values, "Outline") {
            Some(raw) => raw,
            None => {
                return Err(InvalidValue);
            },
        };
        let shadow = match lookup_field(&schema, &values, "Shadow") {
            Some(raw) => raw,
            None => {
                return Err(InvalidValue);
            },
        };
        let alignment = match lookup_field(&schema, &values, "Alignment") {
            Some(raw) => match Alignment::from_field(raw) {
                Ok(v) => v,
                Err(_) => {
                    return Err(InvalidValue);
                },
            },
            None => {
                return Err(InvalidValue);
            },
        };
        let margin_l = match lookup_field(&schema, &values, "MarginL") {
            Some(raw) => match parse_u32(raw) {
                Some(v) => v,
                None => {
                    return Err(InvalidValue);
                },
            },
            None => {
                return Err(InvalidValue);
            },
        };
        let margin_r = match lookup_field(&schema, &values, "MarginR") {
            Some(raw) => match parse_u32(raw) {
                Some(v) => v,
                None => {
                    return Err(InvalidValue);
                },
            },
            None => {
                return Err(InvalidValue);
            },
        };
        let margin_v = match lookup_field(&schema, &values, "MarginV") {
            Some(raw) => match parse_u32(raw) {
                Some(v) => v,
                None => {
                    return Err(InvalidValue);
                },
            },
            None => {
                return Err(InvalidValue);
            },
        };
        let encoding = match lookup_field(&schema, &values, "Encoding") {
            Some(raw) => match parse_u32(raw) {
                Some(v) => v,
                None => {
                    return Err(InvalidValue);
                },
            },
            None => {
                return Err(InvalidValue);
            },
        };
        let st = Style {
            name,
            font_name,
            font_size,
            primary_color,
            secondary_color,
            outline_color,
            background_color,
            bold,
            italic,
            underline,
            strikeout,
            scale_x,
            scale_y,
            spacing,
            angle,
            border_style,
            outline,
            shadow,
            alignment,
            margin_l,
            margin_r,
            margin_v,
            encoding,
        };
        Ok(st)
    }
}

} // verus!
