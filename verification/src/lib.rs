//! Zero-copy parser for the line-oriented, section-structured subtitle
//! script format: lines are classified into structural elements, elements
//! are grouped into named sections, and each section's data lines are
//! decoded into typed records through a schema that the data itself
//! declares in its `Format` line.

pub mod decode;
pub mod document;
pub mod elements;
pub mod event;
pub mod fields;
pub mod num;
pub mod section;
pub mod style;
pub mod text;
pub mod timestamp;

use vstd::prelude::*;

verus! {

/// Parses a whole text into its best-effort document: metadata, styles
/// and events, assembled from the sections the text declares.
pub fn parse_str<'x>(s: &'x str) -> (r: document::Ass<'x>)
    ensures
        r@ == document::doc_of_sections(
            section::sections_of(elements::elements_of(text::lines_of(s@))),
        ),
{
    document::Ass::from_elements(elements::parse_str(s))
}

} // verus!
