//! Timestamps in the `H:MM:SS.cc` layout: hours, minutes, seconds and
//! centiseconds, resolved to a number of milliseconds.

use vstd::prelude::*;
use vstd::string::StringExecFns;
use crate::num::{
    dec_str, dec_val, is_dec_digit, is_dec_digits, lemma_dec_str_digits, lemma_dec_val_dec_str,
    lemma_digits_not_contains, lemma_pad2, pad2, parse_u32, parse_u32_spec, u64_to_dec,
    u64_to_pad2,
};
use crate::text::{lemma_split_on_concat, lemma_split_on_len, lemma_split_on_whole, split_on, split_on_str};

verus! {

/// A duration measured in whole milliseconds.
#[derive(Debug, Clone, Copy, PartialEq, Eq, Structural)]
pub struct Timestamp {
    pub millis: u64,
}

impl View for Timestamp {
    type V = u64;

    open spec fn view(&self) -> u64 {
        self.millis
    }
}

/// The numeric components of a timestamp: every colon-separated part,
/// with the last one further divided at each dot.
pub open spec fn timestamp_components(s: Seq<char>) -> Seq<Seq<char>> {
    let cparts = split_on(s, ':');
    cparts.drop_last() + split_on(cparts.last(), '.')
}

/// The milliseconds a timestamp stands for: exactly four numeric
/// components — hours, minutes, seconds, centiseconds — each read as an
/// unsigned decimal number, combined as
/// `((hours * 60 + minutes) * 60 + seconds) * 1000 + centiseconds * 10`.
pub open spec fn parse_timestamp_spec(s: Seq<char>) -> Option<u64> {
    let comps = timestamp_components(s);
    if comps.len() == 4 {
        match (
            parse_u32_spec(comps[0]),
            parse_u32_spec(comps[1]),
            parse_u32_spec(comps[2]),
            parse_u32_spec(comps[3]),
        ) {
            (Some(h), Some(m), Some(sec), Some(cc)) => Some(
                (((h * 60 + m) * 60 + sec) * 1000 + cc * 10) as u64,
            ),
            _ => None,
        }
    } else {
        None
    }
}

/// The canonical `H:MM:SS.cc` layout of a millisecond count: unpadded
/// hours, two-digit minutes, seconds and centiseconds.
pub open spec fn format_timestamp_spec(ms: u64) -> Seq<char> {
    dec_str((ms / 3600000) as nat) + seq![':'] + pad2(((ms / 60000) % 60) as nat) + seq![':']
        + pad2(((ms / 1000) % 60) as nat) + seq!['.'] + pad2(((ms / 10) % 100) as nat)
}

/// Reads a timestamp, failing on a wrong component count or any
/// non-numeric component.
pub fn parse_timestamp(s: &str) -> (r: Option<u64>)
    ensures
        r == parse_timestamp_spec(s@),
{
    let parts = split_on_str(s, ':');
    proof {
        lemma_split_on_len(s@, ':');
    }
    let ghost cview = split_on(s@, ':');
    let last: &str = parts[parts.len() - 1];
    assert(last@ == cview.last());
    let dotted = split_on_str(last, '.');
    proof {
        lemma_split_on_len(last@, '.');
    }
    let ghost dview = split_on(cview.last(), '.');
    let ghost comps_view = timestamp_components(s@);

    let mut comps: Vec<&str> = Vec::new();
    let mut i: usize = 0;
    while i < parts.len() - 1
        invariant
            parts@.map_values(|p: &str| p@) == cview,
            cview.len() >= 1,
            i <= parts.len() - 1,
            comps@.map_values(|p: &str| p@) == cview.drop_last().take(i as int),
        decreases parts.len() - 1 - i,
    {
        let ghost before = comps@;
        comps.push(parts[i]);
        proof {
            assert(comps@.map_values(|p: &str| p@) =~= before.map_values(|p: &str| p@)
                + seq![parts@[i as int]@]);
            assert(comps@.map_values(|p: &str| p@) =~= cview.drop_last().take(i + 1));
        }
        i = i + 1;
    }
    proof {
        assert(cview.drop_last().take(parts@.len() - 1) =~= cview.drop_last());
    }
    let mut j: usize = 0;
    while j < dotted.len()
        invariant
            dotted@.map_values(|p: &str| p@) == dview,
            j <= dotted.len(),
            comps@.map_values(|p: &str| p@) == cview.drop_last() + dview.take(j as int),
        decreases dotted.len() - j,
    {
        let ghost before = comps@;
        comps.push(dotted[j]);
        proof {
            assert(comps@.map_values(|p: &str| p@) =~= before.map_values(|p: &str| p@)
                + seq![dotted@[j as int]@]);
            assert(comps@.map_values(|p: &str| p@) =~= cview.drop_last() + dview.take(j + 1));
        }
        j = j + 1;
    }
    proof {
        assert(dview.take(dview.len() as int) =~= dview);
        assert(comps@.map_values(|p: &str| p@) == comps_view);
    }

    if comps.len() != 4 {
        return None;
    }
    assert(comps@[0]@ == comps_view[0]);
    let h = match parse_u32(comps[0]) {
        Some(v) => v,
        None => {
            return None;
        },
    };
    let m = match parse_u32(comps[1]) {
        Some(v) => v,
        None => {
            return None;
        },
    };
    let sec = match parse_u32(comps[2]) {
        Some(v) => v,
        None => {
            return None;
        },
    };
    let cc = match parse_u32(comps[3]) {
        Some(v) => v,
        None => {
            return None;
        },
    };
    let t1: u64 = h as u64 * 60 + m as u64;
    let t2: u64 = t1 * 60 + sec as u64;
    let ms: u64 = t2 * 1000 + cc as u64 * 10;
    Some(ms)
}

/// Writes `ms` in the canonical `H:MM:SS.cc` layout.
pub fn format_timestamp(ms: u64) -> (r: String)
    ensures
        r@ == format_timestamp_spec(ms),
{
    let mut r = u64_to_dec(ms / 3600000);
    r.append(":");
    let mm = u64_to_pad2((ms / 60000) % 60);
    r.append(mm.as_str());
    r.append(":");
    let ss = u64_to_pad2((ms / 1000) % 60);
    r.append(ss.as_str());
    r.append(".");
    let cs = u64_to_pad2((ms / 10) % 100);
    r.append(cs.as_str());
    proof {
        reveal_strlit(":");
        reveal_strlit(".");
        assert(r@ =~= format_timestamp_spec(ms));
    }
    r
}

/// Law: formatting a millisecond count in the `H:MM:SS.cc` layout and
/// reading it back yields the count rounded down to a whole centisecond
/// — so a well-formed timestamp string round-trips to the same value
/// within one centisecond. Hour counts beyond the numeric range of a
/// component are left out: their layout cannot be read back.
pub proof fn lemma_timestamp_round_trip(ms: u64)
    requires
        ms / 3600000 <= u32::MAX,
    ensures
        parse_timestamp_spec(format_timestamp_spec(ms)) == Some(((ms / 10) * 10) as u64),
{
    let h = (ms / 3600000) as nat;
    let m = ((ms / 60000) % 60) as nat;
    let sec = ((ms / 1000) % 60) as nat;
    let cc = ((ms / 10) % 100) as nat;
    let a = dec_str(h);
    let b = pad2(m);
    let x = pad2(sec) + seq!['.'] + pad2(cc);
    let f = format_timestamp_spec(ms);

    lemma_dec_str_digits(h);
    lemma_dec_val_dec_str(h);
    lemma_pad2(m);
    lemma_pad2(sec);
    lemma_pad2(cc);
    lemma_digits_not_contains(a, ':');
    lemma_digits_not_contains(b, ':');
    lemma_digits_not_contains(pad2(sec), '.');
    lemma_digits_not_contains(pad2(cc), '.');

    assert(!x.contains(':')) by {
        if x.contains(':') {
            let j = choose|j: int| 0 <= j < x.len() && x[j] == ':';
            if j < 2 {
                assert(is_dec_digit(pad2(sec)[j]));
            } else if j > 2 {
                assert(x[j] == pad2(cc)[j - 3]);
                assert(is_dec_digit(pad2(cc)[j - 3]));
            }
        }
    }

    assert(f =~= a + seq![':'] + (b + seq![':'] + x));
    lemma_split_on_concat(a, ':', b + seq![':'] + x);
    lemma_split_on_concat(b, ':', x);
    lemma_split_on_whole(x, ':');
    let cparts = split_on(f, ':');
    assert(cparts =~= seq![a, b, x]);
    assert(cparts.last() == x);
    assert(cparts.drop_last() =~= seq![a, b]);

    lemma_split_on_concat(pad2(sec), '.', pad2(cc));
    lemma_split_on_whole(pad2(cc), '.');
    assert(split_on(x, '.') =~= seq![pad2(sec), pad2(cc)]);

    let comps = timestamp_components(f);
    assert(comps =~= seq![a, b, pad2(sec), pad2(cc)]);

    // each component parses back to its value
    assert(a[0] != '+');
    assert(parse_u32_spec(a) == Some(((ms / 3600000) as nat) as u32));
    assert(b[0] != '+');
    assert(parse_u32_spec(b) == Some(m as u32));
    assert(parse_u32_spec(pad2(sec)) == Some(sec as u32));
    assert(parse_u32_spec(pad2(cc)) == Some(cc as u32));

    // the arithmetic of the layout collapses back onto ms / 10 * 10
    let msi = ms as int;
    assert((msi / 60000) / 60 == msi / 3600000) by {
        vstd::arithmetic::div_mod::lemma_div_denominator(msi, 60000, 60);
    }
    assert(msi / 60000 == 60 * ((msi / 60000) / 60) + (msi / 60000) % 60) by {
        vstd::arithmetic::div_mod::lemma_fundamental_div_mod(msi / 60000, 60);
    }
    assert((msi / 1000) / 60 == msi / 60000) by {
        vstd::arithmetic::div_mod::lemma_div_denominator(msi, 1000, 60);
    }
    assert(msi / 1000 == 60 * ((msi / 1000) / 60) + (msi / 1000) % 60) by {
        vstd::arithmetic::div_mod::lemma_fundamental_div_mod(msi / 1000, 60);
    }
    assert((msi / 10) / 100 == msi / 1000) by {
        vstd::arithmetic::div_mod::lemma_div_denominator(msi, 10, 100);
    }
    assert(msi / 10 == 100 * ((msi / 10) / 100) + (msi / 10) % 100) by {
        vstd::arithmetic::div_mod::lemma_fundamental_div_mod(msi / 10, 100);
    }
    assert(((h * 60 + m) * 60 + sec) * 1000 + cc * 10 == (msi / 10) * 10);
}

} // verus!
