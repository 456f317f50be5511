//! The section assembler: classified elements are grouped under their
//! most recent section header. A section ends only where the next
//! header begins, so the final section is flushed when input ends.

use vstd::prelude::*;
use crate::decode::{lookup_pairs, FromKey, FromLine};
use crate::elements::{Element, ElementView, Elements, InvalidElement};
use crate::text::str_eq;

verus! {

/// A named, ordered group of key/value lines.
#[derive(Debug, Clone, PartialEq)]
pub struct Section<'a> {
    pub name: &'a str,
    pub lines: Vec<(&'a str, &'a str)>,
}

/// The mathematical shape of a section.
#[verifier::ext_equal]
pub struct SectionModel {
    pub name: Seq<char>,
    pub lines: Seq<(Seq<char>, Seq<char>)>,
}

/// The views of a sequence of sections.
pub open spec fn section_views(secs: Seq<Section>) -> Seq<SectionModel> {
    secs.map_values(|s: Section| s@)
}

/// The views of a sequence of key/value line pairs.
pub open spec fn kv_views(lines: Seq<(&str, &str)>) -> Seq<(Seq<char>, Seq<char>)> {
    lines.map_values(|p: (&str, &str)| (p.0@, p.1@))
}

impl<'a> View for Section<'a> {
    type V = SectionModel;

    open spec fn view(&self) -> SectionModel {
        SectionModel { name: self.name@, lines: kv_views(self.lines@) }
    }
}

/// The sections formed by the remaining elements while a section named
/// `name` with lines `lines` is open. Key/value lines named `!` are
/// reserved markers and always discarded; comments and invalid lines
/// have no effect.
pub open spec fn assemble_from(
    elems: Seq<ElementView>,
    name: Seq<char>,
    lines: Seq<(Seq<char>, Seq<char>)>,
) -> Seq<SectionModel>
    decreases elems.len(),
{
    if elems.len() == 0 {
        seq![SectionModel { name, lines }]
    } else {
        match elems[0] {
            ElementView::SectionDefinition(n2) => seq![SectionModel { name, lines }]
                + assemble_from(elems.drop_first(), n2, Seq::empty()),
            ElementView::Line { name: k, value: v } => if k != "!"@ {
                assemble_from(elems.drop_first(), name, lines.push((k, v)))
            } else {
                assemble_from(elems.drop_first(), name, lines)
            },
            _ => assemble_from(elems.drop_first(), name, lines),
        }
    }
}

/// The ordered sections of an element sequence. Elements before the
/// first header belong to no section and are dropped.
pub open spec fn sections_of(elems: Seq<ElementView>) -> Seq<SectionModel>
    decreases elems.len(),
{
    if elems.len() == 0 {
        Seq::empty()
    } else {
        match elems[0] {
            ElementView::SectionDefinition(n) => assemble_from(
                elems.drop_first(),
                n,
                Seq::empty(),
            ),
            _ => sections_of(elems.drop_first()),
        }
    }
}

/// How many section headers an element sequence holds.
pub open spec fn count_headers(elems: Seq<ElementView>) -> nat
    decreases elems.len(),
{
    if elems.len() == 0 {
        0
    } else {
        (if elems[0] is SectionDefinition {
            1nat
        } else {
            0nat
        }) + count_headers(elems.drop_first())
    }
}

proof fn lemma_assemble_from_len(
    elems: Seq<ElementView>,
    name: Seq<char>,
    lines: Seq<(Seq<char>, Seq<char>)>,
)
    ensures
        assemble_from(elems, name, lines).len() == 1 + count_headers(elems),
    decreases elems.len(),
{
    if elems.len() > 0 {
        match elems[0] {
            ElementView::SectionDefinition(n2) => {
                lemma_assemble_from_len(elems.drop_first(), n2, Seq::empty());
            },
            ElementView::Line { name: k, value: v } => {
                if k != "!"@ {
                    lemma_assemble_from_len(elems.drop_first(), name, lines.push((k, v)));
                } else {
                    lemma_assemble_from_len(elems.drop_first(), name, lines);
                }
            },
            _ => {
                lemma_assemble_from_len(elems.drop_first(), name, lines);
            },
        }
    }
}

/// Law: every section header yields exactly one section — including
/// the last one, which is flushed at the end of input. A document with
/// no trailing blank line whose content ends right after its last data
/// line still contributes that line's section.
pub proof fn lemma_every_header_yields_a_section(elems: Seq<ElementView>)
    ensures
        sections_of(elems).len() == count_headers(elems),
    decreases elems.len(),
{
    if elems.len() > 0 {
        match elems[0] {
            ElementView::SectionDefinition(n) => {
                lemma_assemble_from_len(elems.drop_first(), n, Seq::empty());
            },
            _ => {
                lemma_every_header_yields_a_section(elems.drop_first());
            },
        }
    }
}

/// Groups the elements of a walk into their ordered sections.
#[verifier::loop_isolation(false)]
pub fn assemble_sections<'x>(elements: Elements<'x>) -> (secs: Vec<Section<'x>>)
    ensures
        section_views(secs@) == sections_of(crate::elements::elements_of(elements.remaining())),
{
    let ghost all = crate::elements::elements_of(elements.remaining());
    let mut iter = elements;
    let mut secs: Vec<Section<'x>> = Vec::new();
    let mut cur_name: Option<&'x str> = None;
    let mut cur_lines: Vec<(&'x str, &'x str)> = Vec::new();
    loop
        invariant
            match cur_name {
                None => secs@.len() == 0 && cur_lines@.len() == 0 && sections_of(all)
                    == sections_of(crate::elements::elements_of(iter.remaining())),
                Some(nm) => sections_of(all) == section_views(secs@) + assemble_from(
                    crate::elements::elements_of(iter.remaining()),
                    nm@,
                    kv_views(cur_lines@),
                ),
            },
        decreases crate::elements::elements_of(iter.remaining()).len(),
    {
        let ghost rem_elems = crate::elements::elements_of(iter.remaining());
        let step = iter.next();
        match step {
            None => {
                match cur_name {
                    Some(nm) => {
                        let ghost before = secs@;
                        secs.push(Section { name: nm, lines: cur_lines });
                        proof {
                            assert(assemble_from(rem_elems, nm@, kv_views(cur_lines@))
                                == seq![SectionModel { name: nm@, lines: kv_views(cur_lines@) }]);
                            assert(section_views(secs@) =~= section_views(before) + seq![
                                SectionModel { name: nm@, lines: kv_views(cur_lines@) },
                            ]);
                            assert(section_views(secs@) =~~= sections_of(all));
                        }
                        return secs;
                    },
                    None => {
                        proof {
                            assert(section_views(secs@) =~= Seq::<SectionModel>::empty());
                            assert(sections_of(all) =~= Seq::<SectionModel>::empty());
                        }
                        return secs;
                    },
                }
            },
            Some(x) => {
                proof {
                    assert(rem_elems.len() > 0);
                }
                match x {
                    Ok(Element::SectionDefinition(n)) => {
                        match cur_name {
                            Some(nm) => {
                                let ghost before = secs@;
                                let done_lines = cur_lines;
                                cur_lines = Vec::new();
                                secs.push(Section { name: nm, lines: done_lines });
                                proof {
                                    assert(section_views(secs@) =~= section_views(before) + seq![
                                        SectionModel { name: nm@, lines: kv_views(done_lines@) },
                                    ]);
                                    assert(section_views(secs@) + assemble_from(
                                        rem_elems.drop_first(),
                                        n@,
                                        Seq::empty(),
                                    ) =~~= sections_of(all));
                                    assert(kv_views(cur_lines@) =~= Seq::<(
                                        Seq<char>,
                                        Seq<char>,
                                    )>::empty());
                                }
                            },
                            None => {
                                cur_lines = Vec::new();
                                proof {
                                    assert(kv_views(cur_lines@) =~= Seq::<(
                                        Seq<char>,
                                        Seq<char>,
                                    )>::empty());
                                }
                            },
                        }
                        cur_name = Some(n);
                    },
                    Ok(Element::Line { name, value }) => {
                        match cur_name {
                            Some(_) => {
                                if !str_eq(name, "!") {
                                    let ghost before = cur_lines@;
                                    cur_lines.push((name, value));
                                    proof {
                                        assert(kv_views(cur_lines@) =~= kv_views(before).push(
                                            (name@, value@),
                                        ));
                                    }
                                }
                            },
                            None => {},
                        }
                    },
                    Ok(Element::Comment(_)) => {},
                    Err(_) => {},
                }
            },
        }
    }
}

/// A section could not be decoded under a record type.
#[derive(Debug, Copy, Clone, Eq, PartialEq)]
pub enum FormattedSectionParseError<'a> {
    FormatNotFound,
    InvalidLine(&'a str, &'a str),
}

/// A record collection that decodes from the key/value lines of one
/// section.
pub trait FromLines<'a>: Sized + View {
    type Err;

    /// What the section's lines decode to, at the level of views.
    spec fn lines_decode(lines: Seq<(Seq<char>, Seq<char>)>) -> Option<Self::V>;

    /// Decodes the lines of one section.
    fn from_lines(lines: &[(&'a str, &'a str)]) -> (r: Result<Self, Self::Err>)
        ensures
            match r {
                Ok(v) => Self::lines_decode(kv_views(lines@)) == Some(v@),
                Err(_) => Self::lines_decode(kv_views(lines@)) is None,
            },
    ;
}

/// What the keyed records of a section decode to under a schema: every
/// line but the `Format` ones must decode, its name as the key and its
/// value as the record.
pub open spec fn keyed_lines_decode<'a, K: FromKey, L: FromLine<'a>>(
    lines: Seq<(Seq<char>, Seq<char>)>,
    fmt: Seq<char>,
) -> Option<Seq<(K, L::V)>>
    decreases lines.len(),
{
    if lines.len() == 0 {
        Some(Seq::empty())
    } else if lines[0].0 == "Format"@ {
        keyed_lines_decode::<K, L>(lines.drop_first(), fmt)
    } else {
        match (K::key_decode(lines[0].0), L::line_decode(lines[0].1, fmt)) {
            (Some(k), Some(v)) => match keyed_lines_decode::<K, L>(lines.drop_first(), fmt) {
                Some(t) => Some(seq![(k, v)] + t),
                None => None,
            },
            _ => None,
        }
    }
}

/// One decoded section: each line keyed by its decoded name, decoded
/// under the schema of the section's first `Format` line.
pub struct FormattedSection<'a, K: FromKey, L: FromLine<'a>> {
    lines: Vec<(K, L)>,
    pd: core::marker::PhantomData<&'a ()>,
}

impl<'a, K: FromKey, L: FromLine<'a>> View for FormattedSection<'a, K, L> {
    type V = Seq<(K, L::V)>;

    closed spec fn view(&self) -> Seq<(K, L::V)> {
        self.lines@.map_values(|p: (K, L)| (p.0, p.1@))
    }
}

impl<'a, K: FromKey, L: FromLine<'a>> FormattedSection<'a, K, L> {
    /// How many records the section decoded to.
    pub fn len(&self) -> (n: usize)
        ensures
            n == self@.len(),
    {
        self.lines.len()
    }

    /// One decoded record with its key.
    pub fn get(&self, i: usize) -> (r: &(K, L))
        requires
            i < self@.len(),
        ensures
            (r.0, r.1@) == self@[i as int],
    {
        &self.lines[i]
    }
}

/// Finds the value of the first line named `Format`.
pub(crate) fn find_format<'x>(lines: &[(&'x str, &'x str)]) -> (r: Option<&'x str>)
    ensures
        match r {
            Some(v) => lookup_pairs(kv_views(lines@), "Format"@) == Some(v@),
            None => lookup_pairs(kv_views(lines@), "Format"@) is None,
        },
{
    let ghost pairs = kv_views(lines@);
    proof {
        assert(pairs.skip(0) =~= pairs);
    }
    let mut i: usize = 0;
    while i < lines.len()
        invariant
            pairs == kv_views(lines@),
            i <= lines@.len(),
            lookup_pairs(pairs, "Format"@) == lookup_pairs(pairs.skip(i as int), "Format"@),
        decreases lines@.len() - i,
    {
        assert(pairs.skip(i as int)[0] == pairs[i as int]);
        if str_eq(lines[i].0, "Format") {
            return Some(lines[i].1);
        }
        proof {
            assert(pairs.skip(i as int).drop_first() =~= pairs.skip(i + 1));
        }
        i = i + 1;
    }
    assert(pairs.skip(i as int).len() == 0);
    None
}

impl<'a, K: FromKey, L: FromLine<'a>> FromLines<'a> for FormattedSection<'a, K, L> {
    type Err = FormattedSectionParseError<'a>;

    open spec fn lines_decode(lines: Seq<(Seq<char>, Seq<char>)>) -> Option<Seq<(K, L::V)>> {
        match lookup_pairs(lines, "Format"@) {
            Some(fmt) => keyed_lines_decode::<K, L>(lines, fmt),
            None => None,
        }
    }

    fn from_lines(lines: &[(&'a str, &'a str)]) -> (r: Result<
        Self,
        FormattedSectionParseError<'a>,
    >) {
        let ghost pairs = kv_views(lines@);
        let fmt = match find_format(lines) {
            Some(f) => f,
            None => {
                return Err(FormattedSectionParseError::FormatNotFound);
            },
        };
        let mut out: Vec<(K, L)> = Vec::new();
        let mut i: usize = 0;
        proof {
            assert(pairs.skip(0) =~= pairs);
        }
        while i < lines.len()
            invariant
                pairs == kv_views(lines@),
                i <= lines@.len(),
                lookup_pairs(pairs, "Format"@) == Some(fmt@),
                keyed_lines_decode::<K, L>(pairs, fmt@) == match keyed_lines_decode::<K, L>(
                    pairs.skip(i as int),
                    fmt@,
                ) {
                    Some(t) => Some(out@.map_values(|p: (K, L)| (p.0, p.1@)) + t),
                    None => None::<Seq<(K, L::V)>>,
                },
            decreases lines@.len() - i,
        {
            assert(pairs.skip(i as int)[0] == pairs[i as int]);
            let name: &'a str = lines[i].0;
            let value: &'a str = lines[i].1;
            if str_eq(name, "Format") {
                proof {
                    assert(pairs.skip(i as int).drop_first() =~= pairs.skip(i + 1));
                }
                i = i + 1;
                continue;
            }
            let k = match K::from_key(name) {
                Ok(k) => k,
                Err(_) => {
                    return Err(FormattedSectionParseError::InvalidLine(name, value));
                },
            };
            let v = match L::from_line(value, fmt) {
                Ok(v) => v,
                Err(_) => {
                    return Err(FormattedSectionParseError::InvalidLine(name, value));
                },
            };
            let ghost before = out@;
            out.push((k, v));
            proof {
                assert(pairs.skip(i as int).drop_first() =~= pairs.skip(i + 1));
                assert(out@.map_values(|p: (K, L)| (p.0, p.1@)) =~= before.map_values(
                    |p: (K, L)| (p.0, p.1@),
                ) + seq![(k, v@)]);
                match keyed_lines_decode::<K, L>(pairs.skip(i + 1), fmt@) {
                    Some(t) => {
                        assert(before.map_values(|p: (K, L)| (p.0, p.1@)) + (seq![(k, v@)] + t)
                            =~= out@.map_values(|p: (K, L)| (p.0, p.1@)) + t);
                    },
                    None => {},
                }
            }
            i = i + 1;
        }
        proof {
            assert(pairs.skip(lines@.len() as int).len() == 0);
            assert(out@.map_values(|p: (K, L)| (p.0, p.1@)) + Seq::<(K, L::V)>::empty()
                =~= out@.map_values(|p: (K, L)| (p.0, p.1@)));
        }
        Ok(FormattedSection { lines: out, pd: core::marker::PhantomData })
    }
}

} // verus!
