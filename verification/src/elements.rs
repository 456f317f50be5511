//! The element classifier: one physical line becomes one structural
//! element — a section header, a key/value line, a comment, or an
//! invalid line. Blank lines are transparent and produce no element.

use vstd::prelude::*;
use vstd::string::StrSliceExecFns;
use crate::text::{lines_of, split_lines};

verus! {

/// One structural element of the format.
#[derive(Debug, PartialEq, Eq)]
pub enum Element<'a> {
    SectionDefinition(&'a str),
    Line { name: &'a str, value: &'a str },
    Comment(&'a str),
}

/// A line that matched none of the element rules.
#[derive(Debug, Copy, Clone, PartialEq, Eq)]
pub struct InvalidElement<'a>(pub &'a str);

/// The mathematical shape of a classified line.
pub enum ElementView {
    SectionDefinition(Seq<char>),
    Line { name: Seq<char>, value: Seq<char> },
    Comment(Seq<char>),
    Invalid(Seq<char>),
}

impl<'a> View for Element<'a> {
    type V = ElementView;

    open spec fn view(&self) -> ElementView {
        match self {
            Element::SectionDefinition(name) => ElementView::SectionDefinition(name@),
            Element::Line { name, value } => ElementView::Line { name: name@, value: value@ },
            Element::Comment(text) => ElementView::Comment(text@),
        }
    }
}

impl<'a> View for InvalidElement<'a> {
    type V = Seq<char>;

    open spec fn view(&self) -> Seq<char> {
        self.0@
    }
}

/// The element a classification result stands for.
pub open spec fn element_result_view<'a>(
    r: Result<Element<'a>, InvalidElement<'a>>,
) -> ElementView {
    match r {
        Ok(e) => e@,
        Err(x) => ElementView::Invalid(x@),
    }
}

/// The position of the first `": "` separator in `s`.
pub open spec fn find_sep(s: Seq<char>) -> Option<int>
    decreases s.len(),
{
    if s.len() < 2 {
        None
    } else if s[0] == ':' && s[1] == ' ' {
        Some(0)
    } else {
        match find_sep(s.drop_first()) {
            None => None,
            Some(i) => Some(i + 1),
        }
    }
}

/// How one non-blank line is classified, each rule tried in order: a
/// comment marker, a bracketed section header, a key/value line split
/// at the first `": "`, and otherwise an invalid line.
pub open spec fn classify_spec(line: Seq<char>) -> ElementView {
    if line[0] == ';' {
        ElementView::Comment(line.drop_first())
    } else if line[0] == '[' && line.last() == ']' {
        ElementView::SectionDefinition(line.subrange(1, line.len() - 1))
    } else {
        match find_sep(line) {
            Some(i) => ElementView::Line { name: line.take(i), value: line.skip(i + 2) },
            None => ElementView::Invalid(line),
        }
    }
}

/// All elements of a line sequence, blank lines skipped.
pub open spec fn elements_of(lines: Seq<Seq<char>>) -> Seq<ElementView>
    decreases lines.len(),
{
    if lines.len() == 0 {
        Seq::empty()
    } else if lines[0].len() == 0 {
        elements_of(lines.drop_first())
    } else {
        seq![classify_spec(lines[0])] + elements_of(lines.drop_first())
    }
}

impl<'a> Element<'a> {
    pub fn is_line(&self) -> (r: bool)
        ensures
            r == (self@ is Line),
    {
        match self {
            Element::Line { .. } => true,
            _ => false,
        }
    }

    pub fn is_section(&self) -> (r: bool)
        ensures
            r == (self@ is SectionDefinition),
    {
        match self {
            Element::SectionDefinition(_) => true,
            _ => false,
        }
    }

    pub fn is_comment(&self) -> (r: bool)
        ensures
            r == (self@ is Comment),
    {
        match self {
            Element::Comment(_) => true,
            _ => false,
        }
    }
}

/// Finds the first `": "` separator in a string slice.
fn find_sep_str(s: &str) -> (r: Option<usize>)
    ensures
        match r {
            Some(i) => find_sep(s@) == Some(i as int),
            None => find_sep(s@) is None,
        },
{
    let len = s.unicode_len();
    let mut i: usize = 0;
    proof {
        assert(s@.skip(0) =~= s@);
    }
    while len >= 2 && i < len - 1
        invariant
            len == s@.len(),
            i <= len,
            find_sep(s@) == match find_sep(s@.skip(i as int)) {
                None => None::<int>,
                Some(j) => Some(i + j),
            },
        decreases len - i,
    {
        if s.get_char(i) == ':' && s.get_char(i + 1) == ' ' {
            assert(s@.skip(i as int)[0] == ':' && s@.skip(i as int)[1] == ' ');
            return Some(i);
        }
        proof {
            assert(s@.skip(i as int).drop_first() =~= s@.skip(i + 1));
        }
        i = i + 1;
    }
    proof {
        assert(s@.skip(i as int).len() < 2);
    }
    None
}

/// Classifies one non-blank line into its structural element.
pub fn classify<'x>(line: &'x str) -> (r: Result<Element<'x>, InvalidElement<'x>>)
    requires
        line@.len() > 0,
    ensures
        element_result_view(r) == classify_spec(line@),
{
    let len = line.unicode_len();
    if line.get_char(0) == ';' {
        let rest = line.substring_char(1, len);
        proof {
            assert(rest@ =~= line@.drop_first());
        }
        Ok(Element::Comment(rest))
    } else if line.get_char(0) == '[' && line.get_char(len - 1) == ']' {
        let name = line.substring_char(1, len - 1);
        Ok(Element::SectionDefinition(name))
    } else {
        match find_sep_str(line) {
            Some(i) => {
                proof {
                    lemma_find_sep_in_range(line@);
                }
                let name = line.substring_char(0, i);
                let value = line.substring_char(i + 2, len);
                proof {
                    assert(name@ =~= line@.take(i as int));
                    assert(value@ =~= line@.skip(i + 2));
                }
                Ok(Element::Line { name, value })
            },
            None => Err(InvalidElement(line)),
        }
    }
}

/// A found separator position always leaves room for the two separator
/// characters.
proof fn lemma_find_sep_in_range(s: Seq<char>)
    ensures
        match find_sep(s) {
            Some(i) => 0 <= i && i + 2 <= s.len(),
            None => true,
        },
    decreases s.len(),
{
    if s.len() >= 2 && !(s[0] == ':' && s[1] == ' ') {
        lemma_find_sep_in_range(s.drop_first());
    }
}

/// A lazy walk over the elements of a line sequence.
pub struct Elements<'a> {
    lines: Vec<&'a str>,
    pos: usize,
}

impl<'a> Elements<'a> {
    /// The lines not yet classified.
    pub closed spec fn remaining(&self) -> Seq<Seq<char>> {
        if self.pos as int <= self.lines@.len() {
            self.lines@.map_values(|l: &str| l@).skip(self.pos as int)
        } else {
            Seq::empty()
        }
    }

    pub fn new(lines: Vec<&'a str>) -> (r: Self)
        ensures
            r.remaining() == lines@.map_values(|l: &str| l@),
    {
        let r = Elements { lines, pos: 0 };
        proof {
            assert(r.remaining() =~= r.lines@.map_values(|l: &str| l@));
        }
        r
    }

    /// Classifies the next non-blank line, or reports the end of input.
    pub fn next(&mut self) -> (r: Option<Result<Element<'a>, InvalidElement<'a>>>)
        ensures
            match r {
                None => elements_of(old(self).remaining()) == Seq::<ElementView>::empty()
                    && final (self).remaining().len() == 0,
                Some(x) => {
                    &&& elements_of(old(self).remaining()).len() > 0
                    &&& element_result_view(x) == elements_of(old(self).remaining())[0]
                    &&& elements_of(final (self).remaining()) == elements_of(
                        old(self).remaining(),
                    ).drop_first()
                },
            },
    {
        loop
            invariant
                elements_of(self.remaining()) == elements_of(old(self).remaining()),
            decreases self.lines@.len() - self.pos,
        {
            if self.pos >= self.lines.len() {
                proof {
                    assert(self.remaining().len() == 0);
                }
                return None;
            }
            let line: &'a str = self.lines[self.pos];
            assert(line@ == self.remaining()[0]);
            let ghost rem = self.remaining();
            self.pos = self.pos + 1;
            proof {
                assert(self.remaining() =~= rem.drop_first());
            }
            if line.unicode_len() > 0 {
                let e = classify(line);
                proof {
                    assert(elements_of(rem) == seq![classify_spec(rem[0])] + elements_of(
                        rem.drop_first(),
                    ));
                    assert((seq![classify_spec(rem[0])] + elements_of(rem.drop_first())).drop_first()
                        =~= elements_of(rem.drop_first()));
                }
                return Some(e);
            }
        }
    }
}

/// Classifies a whole text into its lazy element walk.
pub fn parse_str<'x>(s: &'x str) -> (r: Elements<'x>)
    ensures
        r.remaining() == lines_of(s@),
{
    Elements::new(split_lines(s))
}

} // verus!
