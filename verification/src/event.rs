//! The event record: one `Dialogue` or `Comment` line of an `Events`
//! section, decoded through the schema-driven decoder.

use vstd::prelude::*;
use crate::decode::{
    distinct_names, line_pairs, lookup_pairs, lookup_field, lemma_lookup_order_independent,
    schema_of_str, FromKey, FromLine,
};
use crate::fields::InvalidValue;
use crate::num::{parse_u32, parse_u32_spec};
use crate::text::{splitn_on_str, str_eq};
use crate::timestamp::{parse_timestamp, parse_timestamp_spec, Timestamp};

verus! {

/// One event entry.
#[derive(Debug, Copy, Clone, Eq, PartialEq)]
pub struct Event<'a> {
    pub layer: u32,
    pub start: Timestamp,
    pub end: Timestamp,
    pub style: &'a str,
    pub actor: &'a str,
    pub margin_l: u32,
    pub margin_r: u32,
    pub margin_v: u32,
    pub effect: &'a str,
    pub text: &'a str,
}

/// The mathematical shape of an event entry.
pub struct EventModel {
    pub layer: u32,
    pub start: u64,
    pub end: u64,
    pub style: Seq<char>,
    pub actor: Seq<char>,
    pub margin_l: u32,
    pub margin_r: u32,
    pub margin_v: u32,
    pub effect: Seq<char>,
    pub text: Seq<char>,
}

impl<'a> View for Event<'a> {
    type V = EventModel;

    open spec fn view(&self) -> EventModel {
        EventModel {
            layer: self.layer,
            start: self.start@,
            end: self.end@,
            style: self.style@,
            actor: self.actor@,
            margin_l: self.margin_l,
            margin_r: self.margin_r,
            margin_v: self.margin_v,
            effect: self.effect@,
            text: self.text@,
        }
    }
}

/// A required unsigned-integer field: the column must be present and
/// its value must parse.
pub open spec fn req_u32(pairs: Seq<(Seq<char>, Seq<char>)>, name: Seq<char>) -> Option<u32> {
    match lookup_pairs(pairs, name) {
        Some(raw) => parse_u32_spec(raw),
        None => None,
    }
}

/// An optional unsigned-integer field: an absent column takes the
/// declared default, a present one must parse.
pub open spec fn opt_u32(pairs: Seq<(Seq<char>, Seq<char>)>, name: Seq<char>, d: u32) -> Option<
    u32,
> {
    match lookup_pairs(pairs, name) {
        Some(raw) => parse_u32_spec(raw),
        None => Some(d),
    }
}

/// An optional text field: an absent column takes the declared default.
pub open spec fn opt_text(
    pairs: Seq<(Seq<char>, Seq<char>)>,
    name: Seq<char>,
    d: Seq<char>,
) -> Seq<char> {
    match lookup_pairs(pairs, name) {
        Some(raw) => raw,
        None => d,
    }
}

/// A required timestamp field.
pub open spec fn req_timestamp(pairs: Seq<(Seq<char>, Seq<char>)>, name: Seq<char>) -> Option<
    u64,
> {
    match lookup_pairs(pairs, name) {
        Some(raw) => parse_timestamp_spec(raw),
        None => None,
    }
}

/// Whether every required or convertible event field resolves.
pub open spec fn event_fields_ok(pairs: Seq<(Seq<char>, Seq<char>)>) -> bool {
    &&& req_u32(pairs, "Layer"@) is Some
    &&& req_timestamp(pairs, "Start"@) is Some
    &&& req_timestamp(pairs, "End"@) is Some
    &&& opt_u32(pairs, "MarginL"@, 0) is Some
    &&& opt_u32(pairs, "MarginR"@, 0) is Some
    &&& opt_u32(pairs, "MarginV"@, 0) is Some
    &&& lookup_pairs(pairs, "Text"@) is Some
}

/// The event record the zipped pairs decode to: `Layer`, `Start`, `End`
/// and `Text` are required; `Style`, `Actor`, `Effect` and the margins
/// take their declared defaults when their column is absent.
pub open spec fn event_from_pairs(pairs: Seq<(Seq<char>, Seq<char>)>) -> Option<EventModel> {
    if event_fields_ok(pairs) {
        Some(
            EventModel {
                layer: req_u32(pairs, "Layer"@)->Some_0,
                start: req_timestamp(pairs, "Start"@)->Some_0,
                end: req_timestamp(pairs, "End"@)->Some_0,
                style: opt_text(pairs, "Style"@, "Default"@),
                actor: opt_text(pairs, "Actor"@, ""@),
                margin_l: opt_u32(pairs, "MarginL"@, 0)->Some_0,
                margin_r: opt_u32(pairs, "MarginR"@, 0)->Some_0,
                margin_v: opt_u32(pairs, "MarginV"@, 0)->Some_0,
                effect: opt_text(pairs, "Effect"@, ""@),
                text: lookup_pairs(pairs, "Text"@)->Some_0,
            },
        )
    } else {
        None
    }
}

/// What one data line decodes to under one schema line.
pub open spec fn event_decode_spec(line: Seq<char>, format: Seq<char>) -> Option<EventModel> {
    event_from_pairs(line_pairs(line, format))
}

/// Law: event decoding is order-independent with respect to the schema.
/// Two arrangements of the same column/value pairs — a schema
/// permutation carrying its values along — with distinct column names
/// decode to the identical record.
pub proof fn lemma_event_decode_order_independent(
    p1: Seq<(Seq<char>, Seq<char>)>,
    p2: Seq<(Seq<char>, Seq<char>)>,
)
    requires
        distinct_names(p1),
        distinct_names(p2),
        p1.to_multiset() == p2.to_multiset(),
    ensures
        event_from_pairs(p1) == event_from_pairs(p2),
{
    lemma_lookup_order_independent(p1, p2, "Layer"@);
    lemma_lookup_order_independent(p1, p2, "Start"@);
    lemma_lookup_order_independent(p1, p2, "End"@);
    lemma_lookup_order_independent(p1, p2, "Style"@);
    lemma_lookup_order_independent(p1, p2, "Actor"@);
    lemma_lookup_order_independent(p1, p2, "MarginL"@);
    lemma_lookup_order_independent(p1, p2, "MarginR"@);
    lemma_lookup_order_independent(p1, p2, "MarginV"@);
    lemma_lookup_order_independent(p1, p2, "Effect"@);
    lemma_lookup_order_independent(p1, p2, "Text"@);
}

impl<'a> FromLine<'a> for Event<'a> {
    open spec fn line_decode(line: Seq<char>, format: Seq<char>) -> Option<EventModel> {
        event_decode_spec(line, format)
    }

    fn from_line(item: &'a str, format: &str) -> (r: Result<Self, InvalidValue>) {
        let schema = schema_of_str(format);
        let values = splitn_on_str(item, ',', schema.len());
        let ghost pairs = line_pairs(item@, format@);

        let layer = match lookup_field(&schema, &values, "Layer") {
            Some(raw) => match parse_u32(raw) {
                Some(v) => v,
                None => {
                    return Err(InvalidValue);
                },
            },
            None => {
                return Err(InvalidValue);
            },
        };
        let start = match lookup_field(&schema, &values, "Start") {
            Some(raw) => match parse_timestamp(raw) {
                Some(ms) => Timestamp { millis: ms },
                None => {
                    return Err(InvalidValue);
                },
            },
            None => {
                return Err(InvalidValue);
            },
        };
        let end = match lookup_field(&schema, &values, "End") {
            Some(raw) => match parse_timestamp(raw) {
                Some(ms) => Timestamp { millis: ms },
                None => {
                    return Err(InvalidValue);
                },
            },
            None => {
                return Err(InvalidValue);
            },
        };
        let style = match lookup_field(&schema, &values, "Style") {
            Some(raw) => raw,
            None => "Default",
        };
        let actor = match lookup_field(&schema, &values, "Actor") {
            Some(raw) => raw,
            None => "",
        };
        let margin_l = match lookup_field(&schema, &values, "MarginL") {
            Some(raw) => match parse_u32(raw) {
                Some(v) => v,
                None => {
                    return Err(InvalidValue);
                },
            },
            None => 0,
        };
        let margin_r = match lookup_field(&schema, &values, "MarginR") {
            Some(raw) => match parse_u32(raw) {
                Some(v) => v,
                None => {
                    return Err(InvalidValue);
                },
            },
            None => 0,
        };
        let margin_v = match lookup_field(&schema, &values, "MarginV") {
            Some(raw) => match parse_u32(raw) {
                Some(v) => v,
                None => {
                    return Err(InvalidValue);
                },
            },
            None => 0,
        };
        let effect = match lookup_field(&schema, &values, "Effect") {
            Some(raw) => raw,
            None => "",
        };
        let text = match lookup_field(&schema, &values, "Text") {
            Some(raw) => raw,
            None => {
                return Err(InvalidValue);
            },
        };
        let ev = Event {
            layer,
            start,
            end,
            style,
            actor,
            margin_l,
            margin_r,
            margin_v,
            effect,
            text,
        };
        Ok(ev)
    }
}

/// The category tag of an event line: its line name must be one of the
/// two recognized literals.
#[derive(Debug, Copy, Clone, Eq, PartialEq, Structural)]
pub enum EventKey {
    Comment,
    Dialogue,
}

impl FromKey for EventKey {
    open spec fn key_decode(name: Seq<char>) -> Option<EventKey> {
        if name == "Comment"@ {
            Some(EventKey::Comment)
        } else if name == "Dialogue"@ {
            Some(EventKey::Dialogue)
        } else {
            None
        }
    }

    fn from_key(name: &str) -> (r: Result<Self, InvalidValue>) {
        if str_eq(name, "Comment") {
            Ok(EventKey::Comment)
        } else if str_eq(name, "Dialogue") {
            Ok(EventKey::Dialogue)
        } else {
            Err(InvalidValue)
        }
    }
}

} // verus!
