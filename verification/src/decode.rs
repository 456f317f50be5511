//! The schema-driven record decoder: a schema line names the columns, a
//! data line supplies the values, and each declared record field finds
//! its value by exact column-name match, independent of column order.

use vstd::prelude::*;
use crate::fields::InvalidValue;
use crate::text::{split_on, split_on_str, splitn_on, trim_spec, trim_str, str_eq, lemma_split_on_len};

verus! {

/// The column names of a schema line: the line split at commas, each
/// name trimmed.
pub open spec fn schema_of(format: Seq<char>) -> Seq<Seq<char>> {
    split_on(format, ',').map_values(|c: Seq<char>| trim_spec(c))
}

/// The values of a data line under a schema of `n` columns: at most `n`
/// comma-separated parts, the last keeping its commas.
pub open spec fn line_values(line: Seq<char>, n: nat) -> Seq<Seq<char>> {
    splitn_on(line, ',', n)
}

/// Column names and values matched up by position; surplus names or
/// values are dropped.
pub open spec fn zip_pairs(names: Seq<Seq<char>>, values: Seq<Seq<char>>) -> Seq<
    (Seq<char>, Seq<char>),
> {
    let n = if names.len() <= values.len() {
        names.len()
    } else {
        values.len()
    };
    Seq::new(n, |i: int| (names[i], values[i]))
}

/// The name/value pairs a data line yields under a schema line.
pub open spec fn line_pairs(line: Seq<char>, format: Seq<char>) -> Seq<(Seq<char>, Seq<char>)> {
    zip_pairs(schema_of(format), line_values(line, schema_of(format).len()))
}

/// The value of the first pair whose name matches.
pub open spec fn lookup_pairs(pairs: Seq<(Seq<char>, Seq<char>)>, name: Seq<char>) -> Option<
    Seq<char>,
>
    decreases pairs.len(),
{
    if pairs.len() == 0 {
        None
    } else if pairs[0].0 == name {
        Some(pairs[0].1)
    } else {
        lookup_pairs(pairs.drop_first(), name)
    }
}

/// No two pairs carry the same name.
pub open spec fn distinct_names(pairs: Seq<(Seq<char>, Seq<char>)>) -> bool {
    forall|i: int, j: int|
        0 <= i < j < pairs.len() ==> (#[trigger] pairs[i]).0 != (#[trigger] pairs[j]).0
}

proof fn lemma_lookup_found(pairs: Seq<(Seq<char>, Seq<char>)>, name: Seq<char>, v: Seq<char>)
    requires
        lookup_pairs(pairs, name) == Some(v),
    ensures
        pairs.contains((name, v)),
    decreases pairs.len(),
{
    if pairs.len() > 0 {
        if pairs[0].0 == name {
            assert(pairs[0] == (name, v));
        } else {
            lemma_lookup_found(pairs.drop_first(), name, v);
            let p = choose|i: int|
                0 <= i < pairs.drop_first().len() && pairs.drop_first()[i] == (name, v);
            assert(pairs[p + 1] == (name, v));
        }
    }
}

proof fn lemma_lookup_missing(pairs: Seq<(Seq<char>, Seq<char>)>, name: Seq<char>, i: int)
    requires
        lookup_pairs(pairs, name) is None,
        0 <= i < pairs.len(),
    ensures
        pairs[i].0 != name,
    decreases pairs.len(),
{
    if i > 0 {
        lemma_lookup_missing(pairs.drop_first(), name, i - 1);
    }
}

proof fn lemma_lookup_of_contained(
    pairs: Seq<(Seq<char>, Seq<char>)>,
    name: Seq<char>,
    v: Seq<char>,
)
    requires
        distinct_names(pairs),
        pairs.contains((name, v)),
    ensures
        lookup_pairs(pairs, name) == Some(v),
    decreases pairs.len(),
{
    let k = choose|k: int| 0 <= k < pairs.len() && pairs[k] == (name, v);
    if pairs[0].0 == name {
        if k > 0 {
            assert(pairs[k].0 == name);
            assert(false);
        }
    } else {
        assert(k > 0);
        assert(pairs.drop_first()[k - 1] == (name, v));
        assert(distinct_names(pairs.drop_first())) by {
            assert forall|i: int, j: int|
                0 <= i < j < pairs.drop_first().len() implies (#[trigger] pairs.drop_first()[i]).0
                != (#[trigger] pairs.drop_first()[j]).0 by {
                assert(pairs.drop_first()[i] == pairs[i + 1]);
                assert(pairs.drop_first()[j] == pairs[j + 1]);
            }
        }
        lemma_lookup_of_contained(pairs.drop_first(), name, v);
    }
}

/// Law: looking a name up among the zipped pairs does not depend on the
/// order of the pairs — two rearrangements of the same pairs, each with
/// distinct column names, resolve every name alike. This is what makes
/// schema-driven decoding order-independent with respect to the schema.
pub proof fn lemma_lookup_order_independent(
    p1: Seq<(Seq<char>, Seq<char>)>,
    p2: Seq<(Seq<char>, Seq<char>)>,
    name: Seq<char>,
)
    requires
        distinct_names(p1),
        distinct_names(p2),
        p1.to_multiset() == p2.to_multiset(),
    ensures
        lookup_pairs(p1, name) == lookup_pairs(p2, name),
{
    p1.to_multiset_ensures();
    p2.to_multiset_ensures();
    match lookup_pairs(p1, name) {
        Some(v) => {
            lemma_lookup_found(p1, name, v);
            assert(p1.to_multiset().count((name, v)) > 0);
            assert(p2.contains((name, v)));
            lemma_lookup_of_contained(p2, name, v);
        },
        None => {
            match lookup_pairs(p2, name) {
                Some(v) => {
                    lemma_lookup_found(p2, name, v);
                    assert(p2.to_multiset().count((name, v)) > 0);
                    assert(p1.contains((name, v)));
                    let i = choose|i: int| 0 <= i < p1.len() && p1[i] == (name, v);
                    lemma_lookup_missing(p1, name, i);
                },
                None => {},
            }
        },
    }
}

/// Splits a schema line into its trimmed column names.
pub fn schema_of_str<'x>(format: &'x str) -> (cols: Vec<&'x str>)
    ensures
        cols@.map_values(|c: &str| c@) == schema_of(format@),
        cols@.len() >= 1,
{
    let parts = split_on_str(format, ',');
    proof {
        lemma_split_on_len(format@, ',');
    }
    let mut cols: Vec<&'x str> = Vec::new();
    let mut i: usize = 0;
    while i < parts.len()
        invariant
            parts@.map_values(|p: &str| p@) == split_on(format@, ','),
            i <= parts.len(),
            cols@.len() == i,
            cols@.map_values(|c: &str| c@) == schema_of(format@).take(i as int),
        decreases parts.len() - i,
    {
        let ghost before = cols@;
        cols.push(trim_str(parts[i]));
        proof {
            assert(cols@.map_values(|c: &str| c@) =~= before.map_values(|c: &str| c@) + seq![
                trim_spec(parts@[i as int]@),
            ]);
            assert(cols@.map_values(|c: &str| c@) =~= schema_of(format@).take(i + 1));
        }
        i = i + 1;
    }
    proof {
        assert(schema_of(format@).take(parts@.len() as int) =~= schema_of(format@));
    }
    cols
}

/// Finds the value of the first column whose name matches, scanning the
/// zipped column/value pairs positionally.
pub fn lookup_field<'x>(schema: &Vec<&str>, values: &Vec<&'x str>, name: &str) -> (r: Option<
    &'x str,
>)
    ensures
        ({
            let pairs = zip_pairs(
                schema@.map_values(|c: &str| c@),
                values@.map_values(|v: &str| v@),
            );
            match r {
                Some(v) => lookup_pairs(pairs, name@) == Some(v@),
                None => lookup_pairs(pairs, name@) is None,
            }
        }),
{
    let ghost pairs = zip_pairs(schema@.map_values(|c: &str| c@), values@.map_values(|v: &str| v@));
    let n = if schema.len() <= values.len() {
        schema.len()
    } else {
        values.len()
    };
    assert(pairs.len() == n);
    proof {
        assert(pairs.skip(0) =~= pairs);
    }
    let mut i: usize = 0;
    while i < n
        invariant
            n == pairs.len(),
            n <= schema@.len(),
            n <= values@.len(),
            pairs == zip_pairs(schema@.map_values(|c: &str| c@), values@.map_values(|v: &str| v@)),
            i <= n,
            lookup_pairs(pairs, name@) == lookup_pairs(pairs.skip(i as int), name@),
        decreases n - i,
    {
        assert(pairs.skip(i as int)[0] == pairs[i as int]);
        if str_eq(schema[i], name) {
            assert(pairs[i as int].0 == name@);
            return Some(values[i]);
        }
        proof {
            assert(pairs.skip(i as int).drop_first() =~= pairs.skip(i + 1));
        }
        i = i + 1;
    }
    assert(pairs.skip(n as int).len() == 0);
    None
}

/// A record type that decodes from one data line under a schema line.
pub trait FromLine<'a>: Sized + View {
    /// What the record decodes to, at the level of views.
    spec fn line_decode(line: Seq<char>, format: Seq<char>) -> Option<Self::V>;

    /// Decodes one data line under the given schema line.
    fn from_line(item: &'a str, format: &str) -> (r: Result<Self, InvalidValue>)
        ensures
            match r {
                Ok(v) => Self::line_decode(item@, format@) == Some(v@),
                Err(_) => Self::line_decode(item@, format@) is None,
            },
    ;
}

/// A key type that decodes from the name part of a key/value line.
pub trait FromKey: Sized {
    /// What the key decodes to.
    spec fn key_decode(name: Seq<char>) -> Option<Self>;

    /// Decodes a line name.
    fn from_key(name: &str) -> (r: Result<Self, InvalidValue>)
        ensures
            match r {
                Ok(k) => Self::key_decode(name@) == Some(k),
                Err(_) => Self::key_decode(name@) is None,
            },
    ;
}

} // verus!
