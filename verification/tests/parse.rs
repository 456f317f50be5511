//! Whole-document parsing and section-level access.

use asai::document::{
    Ass, Events, ScriptCollisionsType, ScriptInfo, SectionParseError, Styles, WrapStyle,
};
use asai::event::EventKey;
use asai::parse_str;
use asai::section::{FormattedSectionParseError, FromLines};
use asai::style::{Alignment, BorderStyle, Style};

const EVENTS_DOC: &str = "[Events]\nFormat: Layer, Start, End, Style, Actor, MarginL, MarginR, MarginV, Effect, Text\nDialogue: 0,0:00:01.00,0:00:02.00,Default,,0,0,0,,Hello, world\n";

#[test]
fn one_dialogue_line_parses_exactly() {
    let doc = parse_str(EVENTS_DOC);
    assert_eq!(doc.events.events.len(), 1);
    let (key, ev) = doc.events.events[0];
    assert_eq!(key, EventKey::Dialogue);
    assert_eq!(ev.text, "Hello, world");
    assert_eq!(ev.style, "Default");
    assert_eq!(ev.start.millis, 1000);
    assert_eq!(ev.end.millis, 2000);
}

#[test]
fn parse_section_finds_events() {
    let events: Events = Ass::parse_section("Events", EVENTS_DOC).unwrap();
    assert_eq!(events.events.len(), 1);
    assert_eq!(events.events[0].1.text, "Hello, world");
}

#[test]
fn parse_section_reports_a_missing_section() {
    let r: Result<Events, _> = Ass::parse_section("Events", "[Other]\nK: v\n");
    assert_eq!(r.unwrap_err(), SectionParseError::SectionNotFound);
}

#[test]
fn styles_without_format_fail_while_events_fall_back() {
    let doc_text = "[V4+ Styles]\nStyle: Default,Arial,20\n[Events]\nDialogue: 0,0:00:01.00,0:00:02.00,Default,,0,0,0,,Hi\n";
    let styles_lines = vec![("Style", "Default,Arial,20")];
    let direct: Result<Styles, _> = Styles::from_lines(&styles_lines);
    assert_eq!(direct.unwrap_err(), FormattedSectionParseError::FormatNotFound);

    let doc = parse_str(doc_text);
    assert!(doc.styles.styles.is_empty());
    assert_eq!(doc.events.events.len(), 1);
    assert_eq!(doc.events.events[0].1.text, "Hi");

    let r: Result<Styles, _> = Ass::parse_section("V4+ Styles", doc_text);
    assert_eq!(r.unwrap_err(), SectionParseError::CannotParseSection);
}

#[test]
fn document_without_trailing_newline_keeps_its_last_section() {
    let doc = parse_str(
        "[Script Info]\nTitle: T\n[Events]\nFormat: Layer, Start, End, Text\nDialogue: 0,0:00:01.00,0:00:02.00,tail",
    );
    assert_eq!(doc.events.events.len(), 1);
    assert_eq!(doc.events.events[0].1.text, "tail");
}

#[test]
fn script_info_keys_set_their_fields() {
    let text = "[Script Info]\nTitle: My Script\nScript Type: v4.00+\nPlayResX: 1920\nPlayResY: 1080\nWrapStyle: 2\nCollisions: Reverse\nPlayDepth: 16\nTimer: 100.0000\nSync Point: here\n";
    let info: ScriptInfo = Ass::parse_section("Script Info", text).unwrap();
    assert_eq!(info.title, Some("My Script"));
    assert_eq!(info.version, "v4.00+");
    assert_eq!(info.resolution.x, Some(1920));
    assert_eq!(info.resolution.y, Some(1080));
    assert!(matches!(info.wrap_style, WrapStyle::NoWrap));
    assert!(matches!(info.collisions, ScriptCollisionsType::Reverse));
    assert_eq!(info.color_depth.0, 16);
    assert_eq!(info.timescale, Some("100.0000"));
    assert_eq!(info.sync_point, Some("here"));
}

#[test]
fn script_info_defaults_apply() {
    let info: ScriptInfo = Ass::parse_section("Script Info", "[Script Info]\nUnknown: x\n")
        .unwrap();
    assert_eq!(info.version, "V4.00+");
    assert_eq!(info.title, None);
    assert_eq!(info.timescale, None);
    assert_eq!(info.color_depth.0, 8);
    assert!(matches!(info.wrap_style, WrapStyle::SmartConstant));
    assert!(matches!(info.collisions, ScriptCollisionsType::Normal));
    assert_eq!(info.resolution.x, None);
    let fallback: ScriptInfo =
        Ass::parse_section("Script Info", "[Script Info]\nWrapStyle: 9\nCollisions: x\n").unwrap();
    assert!(matches!(fallback.wrap_style, WrapStyle::SmartConstant));
    assert!(matches!(fallback.collisions, ScriptCollisionsType::Normal));
}

const STYLE_FORMAT: &str = "Name, Fontname, Fontsize, PrimaryColour, SecondaryColour, OutlineColor, BackColour, Bold, Italic, Underline, Strikeout, ScaleX, ScaleY, Spacing, Angle, BorderStyle, Outline, Shadow, Alignment, MarginL, MarginR, MarginV, Encoding";

#[test]
fn style_lines_decode_under_their_schema() {
    let mut text = String::from("[V4+ Styles]\nFormat: ");
    text.push_str(STYLE_FORMAT);
    text.push_str(
        "\nStyle: Default,Arial,20,&H00FFFFFF&,&H0000FF&,&H00000000&,&H00000000&,0,-1,0,0,100,100.5,0,0.00,1,2.0,2.0,2,10,20,30,1\n",
    );
    text.push_str("Style: broken,Arial\n");
    let styles: Styles = Ass::parse_section("V4+ Styles", &text).unwrap();
    assert_eq!(styles.styles.len(), 1);
    let st: &Style = &styles.styles[0];
    assert_eq!(st.name.value(), "Default");
    assert_eq!(st.font_name.value(), "Arial");
    assert_eq!(st.font_size, 20);
    assert_eq!(st.primary_color.a, 0x00);
    assert_eq!(st.secondary_color.a, 255);
    assert_eq!(st.secondary_color.r, 0xFF);
    assert!(!st.bold);
    assert!(st.italic);
    assert!(!st.underline);
    assert!(!st.strikeout);
    assert_eq!(st.scale_x, "100");
    assert_eq!(st.scale_y, "100.5");
    assert_eq!(st.spacing, 0);
    assert_eq!(st.angle, "0.00");
    assert!(matches!(st.border_style, BorderStyle::Outline));
    assert_eq!(st.outline, "2.0");
    assert_eq!(st.shadow, "2.0");
    assert!(matches!(st.alignment, Alignment::BottomCenter));
    assert_eq!((st.margin_l, st.margin_r, st.margin_v), (10, 20, 30));
    assert_eq!(st.encoding, 1);
}

#[test]
fn later_duplicate_sections_win() {
    let text = "[Events]\nFormat: Layer, Start, End, Text\nDialogue: 0,0:00:01.00,0:00:02.00,first\n[Events]\nFormat: Layer, Start, End, Text\nDialogue: 0,0:00:03.00,0:00:04.00,second\n";
    let doc = parse_str(text);
    assert_eq!(doc.events.events.len(), 1);
    assert_eq!(doc.events.events[0].1.text, "second");
}

#[test]
fn comments_and_junk_do_not_break_a_parse() {
    let text = "; a comment\nnot a line at all\n[Events]\n; inside\nFormat: Layer, Start, End, Text\nDialogue: 0,0:00:01.00,0:00:02.00,ok\nMumble: 0,0:00:01.00,0:00:02.00,dropped\nDialogue: zz,0:00:01.00,0:00:02.00,also dropped\n";
    let doc = parse_str(text);
    assert_eq!(doc.events.events.len(), 1);
    assert_eq!(doc.events.events[0].1.text, "ok");
}

#[test]
fn empty_input_gives_an_empty_document() {
    let doc = parse_str("");
    assert!(doc.events.events.is_empty());
    assert!(doc.styles.styles.is_empty());
    assert_eq!(doc.info.version, "");
    assert_eq!(doc.info.title, None);
}

#[test]
fn blank_lines_and_carriage_returns_are_transparent() {
    let text = "[Events]\r\n\r\nFormat: Layer, Start, End, Text\r\nDialogue: 0,0:00:01.00,0:00:02.00,crlf ok\r\n";
    let doc = parse_str(text);
    assert_eq!(doc.events.events.len(), 1);
    assert_eq!(doc.events.events[0].1.text, "crlf ok");
}
