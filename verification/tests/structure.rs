//! Elements, sections, and the schema-driven decoder.

use asai::decode::FromLine;
use asai::elements::{classify, parse_str, Element};
use asai::event::{Event, EventKey};
use asai::section::{assemble_sections, FormattedSection, FormattedSectionParseError, FromLines};
use asai::text::{split_lines, split_on_str, splitn_on_str, str_eq, trim_str};

#[test]
fn text_utilities() {
    assert!(str_eq("abc", "abc"));
    assert!(!str_eq("abc", "abd"));
    assert!(!str_eq("abc", "ab"));
    assert_eq!(trim_str("  x y\t"), "x y");
    assert_eq!(trim_str(""), "");
    assert_eq!(trim_str("   "), "");
    assert_eq!(split_on_str("a,b,,c", ','), vec!["a", "b", "", "c"]);
    assert_eq!(split_on_str("", ','), vec![""]);
    assert_eq!(split_lines("a\r\nb\nc"), vec!["a", "b", "c"]);
}

#[test]
fn bounded_split_keeps_the_tail_whole() {
    assert_eq!(splitn_on_str("a,b,c,d", ',', 3), vec!["a", "b", "c,d"]);
    assert_eq!(splitn_on_str("a,b", ',', 5), vec!["a", "b"]);
    assert_eq!(splitn_on_str("a,b,c", ',', 1), vec!["a,b,c"]);
}

#[test]
fn lines_classify_in_order() {
    assert_eq!(classify("[Events]"), Ok(Element::SectionDefinition("Events")));
    assert_eq!(classify(";a note"), Ok(Element::Comment("a note")));
    assert_eq!(
        classify("Title: My Script"),
        Ok(Element::Line { name: "Title", value: "My Script" })
    );
    assert_eq!(
        classify("A: b: c"),
        Ok(Element::Line { name: "A", value: "b: c" })
    );
    assert!(classify("garbage").is_err());
    assert!(classify("[unclosed").is_err());
    assert_eq!(classify(";[x]"), Ok(Element::Comment("[x]")));
}

#[test]
fn element_kind_predicates() {
    let line = classify("K: v").unwrap();
    assert!(line.is_line());
    assert!(!line.is_section());
    assert!(!line.is_comment());
    let sec = classify("[S]").unwrap();
    assert!(sec.is_section());
    let com = classify(";c").unwrap();
    assert!(com.is_comment());
}

#[test]
fn element_walk_skips_blank_lines() {
    let mut elems = parse_str("\n[A]\n\nK: v\n;c\nbad\n");
    assert_eq!(elems.next(), Some(Ok(Element::SectionDefinition("A"))));
    assert_eq!(elems.next(), Some(Ok(Element::Line { name: "K", value: "v" })));
    assert_eq!(elems.next(), Some(Ok(Element::Comment("c"))));
    assert!(elems.next().unwrap().is_err());
    assert_eq!(elems.next(), None);
}

#[test]
fn sections_group_lines_under_their_header() {
    let secs = assemble_sections(parse_str("[A]\nK: 1\n;note\nbad line\n[B]\nL: 2\nM: 3\n"));
    assert_eq!(secs.len(), 2);
    assert_eq!(secs[0].name, "A");
    assert_eq!(secs[0].lines, vec![("K", "1")]);
    assert_eq!(secs[1].name, "B");
    assert_eq!(secs[1].lines, vec![("L", "2"), ("M", "3")]);
}

#[test]
fn reserved_marker_lines_are_discarded() {
    let secs = assemble_sections(parse_str("[A]\n!: junk\nK: 1\n"));
    assert_eq!(secs.len(), 1);
    assert_eq!(secs[0].lines, vec![("K", "1")]);
}

#[test]
fn final_section_is_flushed_without_a_trailing_newline() {
    let secs = assemble_sections(parse_str("[A]\nK: 1\n[B]\nL: 2"));
    assert_eq!(secs.len(), 2);
    assert_eq!(secs[1].lines, vec![("L", "2")]);
}

const EVENT_FORMAT: &str = "Layer, Start, End, Style, Actor, MarginL, MarginR, MarginV, Effect, Text";

#[test]
fn event_decodes_by_column_name() {
    let ev = Event::from_line("3,0:00:01.00,0:00:02.00,Main,Bob,1,2,3,fx,Hi there", EVENT_FORMAT)
        .unwrap();
    assert_eq!(ev.layer, 3);
    assert_eq!(ev.start.millis, 1000);
    assert_eq!(ev.end.millis, 2000);
    assert_eq!(ev.style, "Main");
    assert_eq!(ev.actor, "Bob");
    assert_eq!((ev.margin_l, ev.margin_r, ev.margin_v), (1, 2, 3));
    assert_eq!(ev.effect, "fx");
    assert_eq!(ev.text, "Hi there");
}

#[test]
fn event_final_field_keeps_its_commas() {
    let ev = Event::from_line("0,0:00:01.00,0:00:02.00,Main,,0,0,0,,a, b, c", EVENT_FORMAT)
        .unwrap();
    assert_eq!(ev.text, "a, b, c");
}

#[test]
fn event_decoding_is_schema_order_independent() {
    let permuted = "Text, Style, End, Start, Layer, Actor, MarginL, MarginR, MarginV, Effect";
    let a = Event::from_line("0,0:00:01.00,0:00:02.00,Main,Bob,1,2,3,fx,Hi", EVENT_FORMAT);
    let b = Event::from_line("Hi,Main,0:00:02.00,0:00:01.00,0,Bob,1,2,3,fx", permuted);
    assert_eq!(a.unwrap(), b.unwrap());
}

#[test]
fn event_missing_required_field_fails() {
    assert!(Event::from_line("0,0:00:01.00,0:00:02.00", EVENT_FORMAT).is_err());
    assert!(Event::from_line("x,0:00:01.00,0:00:02.00,Main,,0,0,0,,T", EVENT_FORMAT).is_err());
    assert!(Event::from_line("0,bad,0:00:02.00,Main,,0,0,0,,T", EVENT_FORMAT).is_err());
}

#[test]
fn event_absent_optional_columns_take_defaults() {
    let ev = Event::from_line("0,0:00:01.00,0:00:02.00,T", "Layer, Start, End, Text").unwrap();
    assert_eq!(ev.style, "Default");
    assert_eq!(ev.actor, "");
    assert_eq!(ev.effect, "");
    assert_eq!((ev.margin_l, ev.margin_r, ev.margin_v), (0, 0, 0));
    assert_eq!(ev.text, "T");
}

#[test]
fn formatted_section_decodes_keyed_lines() {
    let lines = vec![
        ("Format", EVENT_FORMAT),
        ("Dialogue", "0,0:00:01.00,0:00:02.00,Main,,0,0,0,,A"),
        ("Comment", "0,0:00:03.00,0:00:04.00,Main,,0,0,0,,B"),
    ];
    let sec: FormattedSection<EventKey, Event> = FormattedSection::from_lines(&lines).unwrap();
    assert_eq!(sec.len(), 2);
    assert_eq!(sec.get(0).0, EventKey::Dialogue);
    assert_eq!(sec.get(0).1.text, "A");
    assert_eq!(sec.get(1).0, EventKey::Comment);
    assert_eq!(sec.get(1).1.text, "B");
}

#[test]
fn formatted_section_needs_a_format_line() {
    let lines = vec![("Dialogue", "0,0:00:01.00,0:00:02.00,Main,,0,0,0,,A")];
    let r: Result<FormattedSection<EventKey, Event>, _> = FormattedSection::from_lines(&lines);
    match r {
        Err(e) => assert_eq!(e, FormattedSectionParseError::FormatNotFound),
        Ok(_) => panic!("decoded without a Format line"),
    }
}

#[test]
fn formatted_section_rejects_an_invalid_line() {
    let lines = vec![("Format", EVENT_FORMAT), ("Banter", "0,0:00:01.00,0:00:02.00,M,,0,0,0,,A")];
    let r: Result<FormattedSection<EventKey, Event>, _> = FormattedSection::from_lines(&lines);
    assert!(matches!(r, Err(FormattedSectionParseError::InvalidLine(_, _))));
}
