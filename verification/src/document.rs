//! The document assembler: sections are dispatched by name to their
//! record decoders — direct key lookup for `Script Info`, the
//! schema-driven decoder for `V4+ Styles` and `Events` — and gathered
//! into one best-effort document. No malformed line, section or field
//! ever aborts a whole parse.

use vstd::prelude::*;
use vstd::string::StrSliceExecFns;
use crate::decode::{lookup_pairs, FromKey, FromLine};
use crate::elements::{elements_of, Elements};
use crate::event::{event_decode_spec, Event, EventKey, EventModel};
use crate::fields::InvalidValue;
use crate::num::{parse_u64, parse_u64_spec, parse_u8, parse_u8_spec};
use crate::section::{
    assemble_sections, find_format, kv_views, sections_of, FormattedSectionParseError, FromLines,
    Section, SectionModel,
};
use crate::style::{style_decode_spec, Style, StyleModel};
use crate::text::{lines_of, str_eq};

verus! {

/// Credits of a script. Author and update-tracking keys (those starting
/// with `Original` or mentioning `Update`) are recognized and ignored,
/// so these fields are never filled in — an accepted gap.
#[derive(Debug, Clone, Copy, Default)]
pub struct Authors<'a> {
    pub script: Option<&'a str>,
    pub translation: Option<&'a str>,
    pub editing: Option<&'a str>,
    pub timing: Option<&'a str>,
    pub updated_by: Option<&'a str>,
    pub update_details: Option<&'a str>,
}

/// How the renderer resolves collisions between events.
#[derive(Debug, Copy, Clone, PartialEq, Eq, Structural)]
pub enum ScriptCollisionsType {
    Normal,
    Reverse,
}

impl Default for ScriptCollisionsType {
    fn default() -> (r: Self)
        ensures
            r == ScriptCollisionsType::Normal,
    {
        ScriptCollisionsType::Normal
    }
}

/// The color depth the script was authored for, in bits.
#[derive(Debug, Copy, Clone, PartialEq, Eq, Structural)]
pub struct ColorDepth(pub u8);

impl Default for ColorDepth {
    fn default() -> (r: Self)
        ensures
            r == ColorDepth(8),
    {
        ColorDepth(8)
    }
}

/// The script's playback resolution; either axis may be absent.
#[derive(Debug, Copy, Clone, PartialEq, Eq, Structural, Default)]
pub struct Resolution {
    pub x: Option<u64>,
    pub y: Option<u64>,
}

/// How the renderer wraps long lines.
#[derive(Debug, Copy, Clone, PartialEq, Eq, Structural)]
pub enum WrapStyle {
    SmartConstant,
    EndOfLine,
    NoWrap,
    SmartVariable,
}

impl Default for WrapStyle {
    fn default() -> (r: Self)
        ensures
            r == WrapStyle::SmartConstant,
    {
        WrapStyle::SmartConstant
    }
}

/// The wrap-style encoding: digits `0` to `3`.
pub open spec fn wrap_style_decode(raw: Seq<char>) -> Option<WrapStyle> {
    match parse_u8_spec(raw) {
        Some(0u8) => Some(WrapStyle::SmartConstant),
        Some(1u8) => Some(WrapStyle::EndOfLine),
        Some(2u8) => Some(WrapStyle::NoWrap),
        Some(3u8) => Some(WrapStyle::SmartVariable),
        _ => None,
    }
}

/// The collisions encoding: the two literal words.
pub open spec fn collisions_decode(raw: Seq<char>) -> Option<ScriptCollisionsType> {
    if raw == "Normal"@ {
        Some(ScriptCollisionsType::Normal)
    } else if raw == "Reverse"@ {
        Some(ScriptCollisionsType::Reverse)
    } else {
        None
    }
}

/// The document-level metadata of a script. The `Timer` value is a
/// fractional number; it is kept as raw borrowed text here and reading
/// it as floating point is left to callers.
#[derive(Debug, Copy, Clone, Default)]
pub struct ScriptInfo<'a> {
    pub resolution: Resolution,
    pub authors: Authors<'a>,
    pub title: Option<&'a str>,
    pub sync_point: Option<&'a str>,
    pub version: &'a str,
    pub timescale: Option<&'a str>,
    pub color_depth: ColorDepth,
    pub collisions: ScriptCollisionsType,
    pub wrap_style: WrapStyle,
}

/// The mathematical shape of the script metadata.
#[verifier::ext_equal]
pub struct ScriptInfoModel {
    pub resolution: Resolution,
    pub title: Option<Seq<char>>,
    pub sync_point: Option<Seq<char>>,
    pub version: Seq<char>,
    pub timescale: Option<Seq<char>>,
    pub color_depth: u8,
    pub collisions: ScriptCollisionsType,
    pub wrap_style: WrapStyle,
}

impl<'a> View for ScriptInfo<'a> {
    type V = ScriptInfoModel;

    open spec fn view(&self) -> ScriptInfoModel {
        ScriptInfoModel {
            resolution: self.resolution,
            title: match self.title {
                Some(t) => Some(t@),
                None => None,
            },
            sync_point: match self.sync_point {
                Some(t) => Some(t@),
                None => None,
            },
            version: self.version@,
            timescale: match self.timescale {
                Some(t) => Some(t@),
                None => None,
            },
            color_depth: self.color_depth.0,
            collisions: self.collisions,
            wrap_style: self.wrap_style,
        }
    }
}

/// The metadata before any line is read.
pub open spec fn info_initial() -> ScriptInfoModel {
    ScriptInfoModel {
        resolution: Resolution { x: None, y: None },
        title: None,
        sync_point: None,
        version: ""@,
        timescale: None,
        color_depth: 8,
        collisions: ScriptCollisionsType::Normal,
        wrap_style: WrapStyle::SmartConstant,
    }
}

/// One key/value line applied to the metadata: a recognized key sets
/// its field, an unparseable value falls back to the field's default,
/// and an unrecognized key changes nothing.
pub open spec fn info_apply(m: ScriptInfoModel, k: Seq<char>, v: Seq<char>) -> ScriptInfoModel {
    if k == "Title"@ {
        ScriptInfoModel { title: Some(v), ..m }
    } else if k == "Sync Point"@ {
        ScriptInfoModel { sync_point: Some(v), ..m }
    } else if k == "Script Type"@ {
        ScriptInfoModel { version: v, ..m }
    } else if k == "Timer"@ {
        ScriptInfoModel { timescale: Some(v), ..m }
    } else if k == "Collisions"@ {
        ScriptInfoModel {
            collisions: match collisions_decode(v) {
                Some(c) => c,
                None => ScriptCollisionsType::Normal,
            },
            ..m
        }
    } else if k == "PlayDepth"@ {
        ScriptInfoModel {
            color_depth: match parse_u8_spec(v) {
                Some(d) => d,
                None => 8,
            },
            ..m
        }
    } else if k == "PlayResY"@ {
        ScriptInfoModel { resolution: Resolution { y: parse_u64_spec(v), ..m.resolution }, ..m }
    } else if k == "PlayResX"@ {
        ScriptInfoModel { resolution: Resolution { x: parse_u64_spec(v), ..m.resolution }, ..m }
    } else if k == "WrapStyle"@ {
        ScriptInfoModel {
            wrap_style: match wrap_style_decode(v) {
                Some(w) => w,
                None => WrapStyle::SmartConstant,
            },
            ..m
        }
    } else {
        m
    }
}

/// The metadata after every line is applied in order; later lines win.
pub open spec fn info_fold(lines: Seq<(Seq<char>, Seq<char>)>) -> ScriptInfoModel
    decreases lines.len(),
{
    if lines.len() == 0 {
        info_initial()
    } else {
        info_apply(info_fold(lines.drop_last()), lines.last().0, lines.last().1)
    }
}

/// What a `Script Info` section decodes to: the folded lines, with the
/// format's version name filled in when no `Script Type` line set one.
pub open spec fn info_decode(lines: Seq<(Seq<char>, Seq<char>)>) -> ScriptInfoModel {
    let m = info_fold(lines);
    if m.version.len() == 0 {
        ScriptInfoModel { version: "V4.00+"@, ..m }
    } else {
        m
    }
}

impl<'a> FromLines<'a> for ScriptInfo<'a> {
    type Err = InvalidValue;

    open spec fn lines_decode(lines: Seq<(Seq<char>, Seq<char>)>) -> Option<ScriptInfoModel> {
        Some(info_decode(lines))
    }

    fn from_lines(lines: &[(&'a str, &'a str)]) -> (r: Result<Self, InvalidValue>) {
        let ghost all = kv_views(lines@);
        let mut info = ScriptInfo {
            resolution: Resolution { x: None, y: None },
            authors: Authors {
                script: None,
                translation: None,
                editing: None,
                timing: None,
                updated_by: None,
                update_details: None,
            },
            title: None,
            sync_point: None,
            version: "",
            timescale: None,
            color_depth: ColorDepth(8),
            collisions: ScriptCollisionsType::Normal,
            wrap_style: WrapStyle::SmartConstant,
        };
        proof {
            assert(info@ =~= info_initial());
        }
        let mut i: usize = 0;
        while i < lines.len()
            invariant
                all == kv_views(lines@),
                i <= lines@.len(),
                info@ == info_fold(all.take(i as int)),
            decreases lines@.len() - i,
        {
            let k: &'a str = lines[i].0;
            let v: &'a str = lines[i].1;
            let ghost before = info@;
            if str_eq(k, "Title") {
                info.title = Some(v);
            } else if str_eq(k, "Sync Point") {
                info.sync_point = Some(v);
            } else if str_eq(k, "Script Type") {
                info.version = v;
            } else if str_eq(k, "Timer") {
                info.timescale = Some(v);
            } else if str_eq(k, "Collisions") {
                info.collisions = if str_eq(v, "Normal") {
                    ScriptCollisionsType::Normal
                } else if str_eq(v, "Reverse") {
                    ScriptCollisionsType::Reverse
                } else {
                    ScriptCollisionsType::Normal
                };
            } else if str_eq(k, "PlayDepth") {
                info.color_depth = match parse_u8(v) {
                    Some(d) => ColorDepth(d),
                    None => ColorDepth(8),
                };
            } else if str_eq(k, "PlayResY") {
                info.resolution.y = parse_u64(v);
            } else if str_eq(k, "PlayResX") {
                info.resolution.x = parse_u64(v);
            } else if str_eq(k, "WrapStyle") {
                info.wrap_style = match parse_u8(v) {
                    Some(0) => WrapStyle::SmartConstant,
                    Some(1) => WrapStyle::EndOfLine,
                    Some(2) => WrapStyle::NoWrap,
                    Some(3) => WrapStyle::SmartVariable,
                    _ => WrapStyle::SmartConstant,
                };
            }
            proof {
                assert(all.take(i + 1).drop_last() =~= all.take(i as int));
                assert(all.take(i + 1).last() == (k@, v@));
                assert(info@ =~= info_apply(before, k@, v@));
            }
            i = i + 1;
        }
        proof {
            assert(all.take(lines@.len() as int) =~= all);
        }
        if info.version.unicode_len() == 0 {
            info.version = "V4.00+";
        }
        Ok(info)
    }
}

/// The styles of a document.
#[derive(Debug, Clone, Default)]
pub struct Styles<'a> {
    pub styles: Vec<Style<'a>>,
}

impl<'a> View for Styles<'a> {
    type V = Seq<StyleModel>;

    open spec fn view(&self) -> Seq<StyleModel> {
        self.styles@.map_values(|s: Style<'a>| s@)
    }
}

/// The style records of a section's lines under a schema: every line
/// but the `Format` ones is attempted, and lines that fail to decode
/// are dropped silently.
pub open spec fn styles_collect(lines: Seq<(Seq<char>, Seq<char>)>, fmt: Seq<char>) -> Seq<
    StyleModel,
>
    decreases lines.len(),
{
    if lines.len() == 0 {
        Seq::empty()
    } else if lines[0].0 == "Format"@ {
        styles_collect(lines.drop_first(), fmt)
    } else {
        match style_decode_spec(lines[0].1, fmt) {
            Some(sm) => seq![sm] + styles_collect(lines.drop_first(), fmt),
            None => styles_collect(lines.drop_first(), fmt),
        }
    }
}

/// What a `V4+ Styles` section decodes to: nothing without a `Format`
/// line, else the style records its schema admits.
pub open spec fn styles_lines_decode(lines: Seq<(Seq<char>, Seq<char>)>) -> Option<
    Seq<StyleModel>,
> {
    match lookup_pairs(lines, "Format"@) {
        Some(fmt) => Some(styles_collect(lines, fmt)),
        None => None,
    }
}

impl<'a> FromLines<'a> for Styles<'a> {
    type Err = FormattedSectionParseError<'a>;

    open spec fn lines_decode(lines: Seq<(Seq<char>, Seq<char>)>) -> Option<Seq<StyleModel>> {
        styles_lines_decode(lines)
    }

    fn from_lines(lines: &[(&'a str, &'a str)]) -> (r: Result<
        Self,
        FormattedSectionParseError<'a>,
    >) {
        let ghost all = kv_views(lines@);
        let fmt = match find_format(lines) {
            Some(f) => f,
            None => {
                return Err(FormattedSectionParseError::FormatNotFound);
            },
        };
        let mut styles: Vec<Style<'a>> = Vec::new();
        let mut i: usize = 0;
        proof {
            assert(all.skip(0) =~= all);
        }
        while i < lines.len()
            invariant
                all == kv_views(lines@),
                i <= lines@.len(),
                styles_collect(all, fmt@) == styles@.map_values(|s: Style<'a>| s@)
                    + styles_collect(all.skip(i as int), fmt@),
            decreases lines@.len() - i,
        {
            assert(all.skip(i as int)[0] == all[i as int]);
            let name: &'a str = lines[i].0;
            let value: &'a str = lines[i].1;
            proof {
                assert(all.skip(i as int).drop_first() =~= all.skip(i + 1));
            }
            if !str_eq(name, "Format") {
                match Style::from_line(value, fmt) {
                    Ok(st) => {
                        let ghost before = styles@;
                        styles.push(st);
                        proof {
                            assert(styles@.map_values(|s: Style<'a>| s@) =~= before.map_values(
                                |s: Style<'a>| s@,
                            ) + seq![st@]);
                            assert(before.map_values(|s: Style<'a>| s@) + (seq![st@]
                                + styles_collect(all.skip(i + 1), fmt@)) =~= styles@.map_values(
                                |s: Style<'a>| s@,
                            ) + styles_collect(all.skip(i + 1), fmt@));
                        }
                    },
                    Err(_) => {},
                }
            }
            i = i + 1;
        }
        proof {
            assert(all.skip(lines@.len() as int).len() == 0);
            assert(styles@.map_values(|s: Style<'a>| s@) + Seq::<StyleModel>::empty()
                =~= styles@.map_values(|s: Style<'a>| s@));
        }
        Ok(Styles { styles })
    }
}

/// The events of a document, each tagged with its category key.
#[derive(Debug, Clone, Default)]
pub struct Events<'a> {
    pub events: Vec<(EventKey, Event<'a>)>,
}

impl<'a> View for Events<'a> {
    type V = Seq<(EventKey, EventModel)>;

    open spec fn view(&self) -> Seq<(EventKey, EventModel)> {
        self.events@.map_values(|p: (EventKey, Event<'a>)| (p.0, p.1@))
    }
}

/// The schema assumed for an `Events` section that declares none.
pub open spec fn default_event_format() -> Seq<char> {
    "Layer, Start, End, Style, Actor, MarginL, MarginR, MarginV, Effect, Text"@
}

/// The event records of a section's lines under a schema: every line
/// but the `Format` ones is attempted; a line is kept only when its
/// name is a recognized category key and its value decodes.
pub open spec fn events_collect(lines: Seq<(Seq<char>, Seq<char>)>, fmt: Seq<char>) -> Seq<
    (EventKey, EventModel),
>
    decreases lines.len(),
{
    if lines.len() == 0 {
        Seq::empty()
    } else if lines[0].0 == "Format"@ {
        events_collect(lines.drop_first(), fmt)
    } else {
        match (EventKey::key_decode(lines[0].0), event_decode_spec(lines[0].1, fmt)) {
            (Some(k), Some(em)) => seq![(k, em)] + events_collect(lines.drop_first(), fmt),
            _ => events_collect(lines.drop_first(), fmt),
        }
    }
}

/// What an `Events` section decodes to: its declared schema, or the
/// fixed fallback schema when no `Format` line is present — an events
/// section always decodes.
pub open spec fn events_lines_decode(lines: Seq<(Seq<char>, Seq<char>)>) -> Seq<
    (EventKey, EventModel),
> {
    match lookup_pairs(lines, "Format"@) {
        Some(fmt) => events_collect(lines, fmt),
        None => events_collect(lines, default_event_format()),
    }
}

impl<'a> FromLines<'a> for Events<'a> {
    type Err = InvalidValue;

    open spec fn lines_decode(lines: Seq<(Seq<char>, Seq<char>)>) -> Option<
        Seq<(EventKey, EventModel)>,
    > {
        Some(events_lines_decode(lines))
    }

    fn from_lines(lines: &[(&'a str, &'a str)]) -> (r: Result<Self, InvalidValue>) {
        let ghost all = kv_views(lines@);
        let fmt = match find_format(lines) {
            Some(f) => f,
            None => "Layer, Start, End, Style, Actor, MarginL, MarginR, MarginV, Effect, Text",
        };
        assert(fmt@ == match lookup_pairs(all, "Format"@) {
            Some(f) => f,
            None => default_event_format(),
        });
        let mut events: Vec<(EventKey, Event<'a>)> = Vec::new();
        let mut i: usize = 0;
        proof {
            assert(all.skip(0) =~= all);
        }
        while i < lines.len()
            invariant
                all == kv_views(lines@),
                i <= lines@.len(),
                events_collect(all, fmt@) == events@.map_values(
                    |p: (EventKey, Event<'a>)| (p.0, p.1@),
                ) + events_collect(all.skip(i as int), fmt@),
            decreases lines@.len() - i,
        {
            assert(all.skip(i as int)[0] == all[i as int]);
            let name: &'a str = lines[i].0;
            let value: &'a str = lines[i].1;
            proof {
                assert(all.skip(i as int).drop_first() =~= all.skip(i + 1));
            }
            if !str_eq(name, "Format") {
                match EventKey::from_key(name) {
                    Ok(k) => {
                        match Event::from_line(value, fmt) {
                            Ok(ev) => {
                                let ghost before = events@;
                                events.push((k, ev));
                                proof {
                                    assert(events@.map_values(
                                        |p: (EventKey, Event<'a>)| (p.0, p.1@),
                                    ) =~= before.map_values(|p: (EventKey, Event<'a>)| (p.0, p.1@))
                                        + seq![(k, ev@)]);
                                    assert(before.map_values(|p: (EventKey, Event<'a>)| (p.0, p.1@))
                                        + (seq![(k, ev@)] + events_collect(all.skip(i + 1), fmt@))
                                        =~= events@.map_values(
                                        |p: (EventKey, Event<'a>)| (p.0, p.1@),
                                    ) + events_collect(all.skip(i + 1), fmt@));
                                }
                            },
                            Err(_) => {},
                        }
                    },
                    Err(_) => {},
                }
            }
            i = i + 1;
        }
        proof {
            assert(all.skip(lines@.len() as int).len() == 0);
            assert(events@.map_values(|p: (EventKey, Event<'a>)| (p.0, p.1@)) + Seq::<(
                EventKey,
                EventModel,
            )>::empty() =~= events@.map_values(|p: (EventKey, Event<'a>)| (p.0, p.1@)));
        }
        Ok(Events { events })
    }
}

/// A whole parsed document.
#[derive(Debug, Clone)]
pub struct Ass<'a> {
    pub info: ScriptInfo<'a>,
    pub styles: Styles<'a>,
    pub events: Events<'a>,
}

/// The mathematical shape of a document.
#[verifier::ext_equal]
pub struct AssModel {
    pub info: ScriptInfoModel,
    pub styles: Seq<StyleModel>,
    pub events: Seq<(EventKey, EventModel)>,
}

impl<'a> View for Ass<'a> {
    type V = AssModel;

    open spec fn view(&self) -> AssModel {
        AssModel { info: self.info@, styles: self.styles@, events: self.events@ }
    }
}

/// One section applied to a document: the three dispatch names select
/// their decoder, a later section with the same dispatch name wins, a
/// section whose decode fails leaves the document unchanged, and any
/// other name is ignored.
pub open spec fn doc_apply(d: AssModel, s: SectionModel) -> AssModel {
    if s.name == "Script Info"@ {
        AssModel { info: info_decode(s.lines), ..d }
    } else if s.name == "V4+ Styles"@ {
        match styles_lines_decode(s.lines) {
            Some(sts) => AssModel { styles: sts, ..d },
            None => d,
        }
    } else if s.name == "Events"@ {
        AssModel { events: events_lines_decode(s.lines), ..d }
    } else {
        d
    }
}

/// The document before any section is read: default metadata, no
/// styles, no events.
pub open spec fn doc_initial() -> AssModel {
    AssModel { info: info_initial(), styles: Seq::empty(), events: Seq::empty() }
}

/// The document an ordered sequence of sections assembles to.
pub open spec fn doc_of_sections(secs: Seq<SectionModel>) -> AssModel
    decreases secs.len(),
{
    if secs.len() == 0 {
        doc_initial()
    } else {
        doc_apply(doc_of_sections(secs.drop_last()), secs.last())
    }
}

/// The first section bearing a name.
pub open spec fn find_section(secs: Seq<SectionModel>, name: Seq<char>) -> Option<int>
    decreases secs.len(),
{
    if secs.len() == 0 {
        None
    } else if secs[0].name == name {
        Some(0)
    } else {
        match find_section(secs.drop_first(), name) {
            Some(i) => Some(i + 1),
            None => None,
        }
    }
}

/// A section could not be found or could not be decoded.
#[derive(Debug, Copy, Clone, Eq, PartialEq, Structural)]
pub enum SectionParseError {
    SectionNotFound,
    CannotParseSection,
}

impl<'a> Ass<'a> {
    /// Assembles the whole document from a walk of its elements.
    #[verifier::loop_isolation(false)]
    pub fn from_elements(elements: Elements<'a>) -> (r: Ass<'a>)
        ensures
            r@ == doc_of_sections(sections_of(elements_of(elements.remaining()))),
    {
        let secs = assemble_sections(elements);
        let ghost sviews = secs@.map_values(|s: Section<'a>| s@);
        let mut doc = Ass {
            info: ScriptInfo {
                resolution: Resolution { x: None, y: None },
                authors: Authors {
                    script: None,
                    translation: None,
                    editing: None,
                    timing: None,
                    updated_by: None,
                    update_details: None,
                },
                title: None,
                sync_point: None,
                version: "",
                timescale: None,
                color_depth: ColorDepth(8),
                collisions: ScriptCollisionsType::Normal,
                wrap_style: WrapStyle::SmartConstant,
            },
            styles: Styles { styles: Vec::new() },
            events: Events { events: Vec::new() },
        };
        proof {
            assert(doc@ =~~= doc_initial());
        }
        let mut i: usize = 0;
        while i < secs.len()
            invariant
                i <= secs@.len(),
                doc@ == doc_of_sections(sviews.take(i as int)),
            decreases secs@.len() - i,
        {
            let ghost before = doc@;
            let sec: &Section<'a> = &secs[i];
            if str_eq(sec.name, "Script Info") {
                match ScriptInfo::from_lines(sec.lines.as_slice()) {
                    Ok(info) => {
                        doc.info = info;
                    },
                    Err(_) => {},
                }
            } else if str_eq(sec.name, "V4+ Styles") {
                match Styles::from_lines(sec.lines.as_slice()) {
                    Ok(styles) => {
                        doc.styles = styles;
                    },
                    Err(_) => {},
                }
            } else if str_eq(sec.name, "Events") {
                match Events::from_lines(sec.lines.as_slice()) {
                    Ok(events) => {
                        doc.events = events;
                    },
                    Err(_) => {},
                }
            }
            proof {
                assert(sviews.take(i + 1).drop_last() =~= sviews.take(i as int));
                assert(sviews.take(i + 1).last() == sviews[i as int]);
                assert(doc@ =~~= doc_apply(before, sviews[i as int]));
            }
            i = i + 1;
        }
        proof {
            assert(sviews.take(secs@.len() as int) =~= sviews);
        }
        doc
    }

    /// Parses a text far enough to decode the first section bearing
    /// `name` under the record type `T`.
    #[verifier::loop_isolation(false)]
    pub fn parse_section<'b, T: FromLines<'b>>(name: &str, s: &'b str) -> (r: Result<
        T,
        SectionParseError,
    >)
        ensures
            ({
                let secs = sections_of(elements_of(lines_of(s@)));
                match r {
                    Ok(t) => find_section(secs, name@) is Some && T::lines_decode(
                        secs[find_section(secs, name@)->Some_0].lines,
                    ) == Some(t@),
                    Err(SectionParseError::SectionNotFound) => find_section(secs, name@) is None,
                    Err(SectionParseError::CannotParseSection) => find_section(secs, name@)
                        is Some && T::lines_decode(
                        secs[find_section(secs, name@)->Some_0].lines,
                    ) is None,
                }
            }),
    {
        let elements = crate::elements::parse_str(s);
        let secs = assemble_sections(elements);
        let ghost sviews = secs@.map_values(|c: Section<'b>| c@);
        let mut i: usize = 0;
        proof {
            assert(sviews.skip(0) =~= sviews);
        }
        while i < secs.len()
            invariant
                i <= secs@.len(),
                find_section(sviews, name@) == match find_section(sviews.skip(i as int), name@) {
                    Some(j) => Some(i + j),
                    None => None::<int>,
                },
            decreases secs@.len() - i,
        {
            assert(sviews.skip(i as int)[0] == sviews[i as int]);
            let sec: &Section<'b> = &secs[i];
            if str_eq(sec.name, name) {
                assert(find_section(sviews, name@) == Some(i as int));
                match T::from_lines(sec.lines.as_slice()) {
                    Ok(t) => {
                        return Ok(t);
                    },
                    Err(_) => {
                        return Err(SectionParseError::CannotParseSection);
                    },
                }
            }
            proof {
                assert(sviews.skip(i as int).drop_first() =~= sviews.skip(i + 1));
            }
            i = i + 1;
        }
        proof {
            assert(sviews.skip(secs@.len() as int).len() == 0);
        }
        Err(SectionParseError::SectionNotFound)
    }
}

} // verus!
