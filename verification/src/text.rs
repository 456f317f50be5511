//! Character-level text utilities: equality, trimming, splitting on a
//! separator character, and joining back. Everything is specified over
//! `Seq<char>` views of string slices.

use vstd::prelude::*;
use vstd::string::StrSliceExecFns;

verus! {

/// Characters discarded by `trim`: blanks and line breaks.
pub open spec fn is_space_char(c: char) -> bool {
    c == ' ' || c == '\t' || c == '\r' || c == '\n'
}

/// The suffix of `s` that remains once leading spaces are gone.
pub open spec fn trim_start_spec(s: Seq<char>) -> Seq<char>
    decreases s.len(),
{
    if s.len() == 0 {
        s
    } else if is_space_char(s[0]) {
        trim_start_spec(s.drop_first())
    } else {
        s
    }
}

/// The prefix of `s` that remains once trailing spaces are gone.
pub open spec fn trim_end_spec(s: Seq<char>) -> Seq<char>
    decreases s.len(),
{
    if s.len() == 0 {
        s
    } else if is_space_char(s.last()) {
        trim_end_spec(s.drop_last())
    } else {
        s
    }
}

/// `s` without leading and trailing spaces.
pub open spec fn trim_spec(s: Seq<char>) -> Seq<char> {
    trim_end_spec(trim_start_spec(s))
}

proof fn lemma_trim_start_at(s: Seq<char>, i: int)
    requires
        0 <= i <= s.len(),
        forall|j: int| 0 <= j < i ==> is_space_char(s[j]),
        i < s.len() ==> !is_space_char(s[i]),
    ensures
        trim_start_spec(s) == s.skip(i),
    decreases i,
{
    if i == 0 {
        assert(s.skip(0) =~= s);
    } else {
        lemma_trim_start_at(s.drop_first(), i - 1);
        assert(s.drop_first().skip(i - 1) =~= s.skip(i));
    }
}

proof fn lemma_trim_end_at(s: Seq<char>, h: int)
    requires
        0 <= h <= s.len(),
        forall|j: int| h <= j < s.len() ==> is_space_char(s[j]),
        h > 0 ==> !is_space_char(s[h - 1]),
    ensures
        trim_end_spec(s) == s.take(h),
    decreases s.len() - h,
{
    if h == s.len() {
        assert(s.take(h) =~= s);
    } else {
        lemma_trim_end_at(s.drop_last(), h);
        assert(s.drop_last().take(h) =~= s.take(h));
    }
}

/// Removes leading and trailing spaces, returning a view into `s`.
pub fn trim_str<'x>(s: &'x str) -> (r: &'x str)
    ensures
        r@ == trim_spec(s@),
{
    let len = s.unicode_len();
    let mut lo: usize = 0;
    while lo < len && is_space(s.get_char(lo))
        invariant
            len == s@.len(),
            lo <= len,
            forall|j: int| 0 <= j < lo ==> is_space_char(s@[j]),
        decreases len - lo,
    {
        lo = lo + 1;
    }
    proof {
        lemma_trim_start_at(s@, lo as int);
    }
    let mut hi: usize = len;
    while hi > lo && is_space(s.get_char(hi - 1))
        invariant
            len == s@.len(),
            lo <= hi <= len,
            forall|j: int| hi <= j < len ==> is_space_char(s@[j]),
        decreases hi,
    {
        hi = hi - 1;
    }
    let r = s.substring_char(lo, hi);
    proof {
        lemma_trim_end_at(s@.skip(lo as int), hi - lo);
        assert(s@.skip(lo as int).take(hi - lo) =~= s@.subrange(lo as int, hi as int));
    }
    r
}

/// Executable check for `is_space_char`.
pub fn is_space(c: char) -> (r: bool)
    ensures
        r == is_space_char(c),
{
    c == ' ' || c == '\t' || c == '\r' || c == '\n'
}

/// Compares two string slices character by character.
pub fn str_eq(a: &str, b: &str) -> (r: bool)
    ensures
        r <==> a@ == b@,
{
    let alen = a.unicode_len();
    let blen = b.unicode_len();
    if alen != blen {
        assert(a@ != b@) by {
            assert(a@.len() != b@.len());
        }
        return false;
    }
    let mut i: usize = 0;
    while i < alen
        invariant
            alen == a@.len(),
            blen == b@.len(),
            alen == blen,
            i <= alen,
            forall|j: int| 0 <= j < i ==> a@[j] == b@[j],
        decreases alen - i,
    {
        if a.get_char(i) != b.get_char(i) {
            return false;
        }
        i = i + 1;
    }
    assert(a@ =~= b@);
    true
}

/// Splits `s` at every occurrence of `c`. The result always has at least
/// one part; separators are not kept.
pub open spec fn split_on(s: Seq<char>, c: char) -> Seq<Seq<char>>
    decreases s.len(),
{
    if s.len() == 0 {
        seq![s]
    } else if s[0] == c {
        seq![Seq::<char>::empty()] + split_on(s.drop_first(), c)
    } else {
        let r = split_on(s.drop_first(), c);
        seq![seq![s[0]] + r[0]] + r.drop_first()
    }
}

/// Splits `s` at occurrences of `c` into at most `n` parts; the last part
/// keeps any remaining separators.
pub open spec fn splitn_on(s: Seq<char>, c: char, n: nat) -> Seq<Seq<char>>
    decreases s.len(),
{
    if n <= 1 {
        seq![s]
    } else if s.len() == 0 {
        seq![s]
    } else if s[0] == c {
        seq![Seq::<char>::empty()] + splitn_on(s.drop_first(), c, (n - 1) as nat)
    } else {
        let r = splitn_on(s.drop_first(), c, n);
        seq![seq![s[0]] + r[0]] + r.drop_first()
    }
}

/// Concatenates `parts` with `c` between consecutive parts.
pub open spec fn join_on(parts: Seq<Seq<char>>, c: char) -> Seq<char>
    decreases parts.len(),
{
    if parts.len() == 0 {
        Seq::empty()
    } else if parts.len() == 1 {
        parts[0]
    } else {
        parts[0] + seq![c] + join_on(parts.drop_first(), c)
    }
}

pub proof fn lemma_split_on_len(s: Seq<char>, c: char)
    ensures
        split_on(s, c).len() >= 1,
    decreases s.len(),
{
    if s.len() > 0 {
        lemma_split_on_len(s.drop_first(), c);
    }
}

pub proof fn lemma_splitn_on_len(s: Seq<char>, c: char, n: nat)
    ensures
        1 <= splitn_on(s, c, n).len(),
        n >= 1 ==> splitn_on(s, c, n).len() <= n,
    decreases s.len(),
{
    if n > 1 && s.len() > 0 {
        if s[0] == c {
            lemma_splitn_on_len(s.drop_first(), c, (n - 1) as nat);
        } else {
            lemma_splitn_on_len(s.drop_first(), c, n);
        }
    }
}

/// Splitting at the first occurrence of `c` (at index `i`) and splitting
/// the remainder agree with `split_on` on the whole.
proof fn lemma_split_on_unfold(s: Seq<char>, c: char, i: int)
    requires
        0 <= i <= s.len(),
        forall|j: int| 0 <= j < i ==> s[j] != c,
    ensures
        i == s.len() ==> split_on(s, c) == seq![s],
        i < s.len() && s[i] == c ==> split_on(s, c) == seq![s.take(i)] + split_on(
            s.skip(i + 1),
            c,
        ),
    decreases i,
{
    if i == 0 {
        if s.len() == 0 {
            assert(split_on(s, c) == seq![s]);
        } else if s[0] == c {
            assert(s.take(0) =~= Seq::<char>::empty());
            assert(s.skip(1) =~= s.drop_first());
        }
    } else {
        let t = s.drop_first();
        lemma_split_on_unfold(t, c, i - 1);
        if i == s.len() {
            // no separator anywhere: split_on(t) == seq![t]
            assert(split_on(s, c) =~= seq![seq![s[0]] + t] + split_on(t, c).drop_first());
            assert(seq![s[0]] + t =~= s);
            assert(split_on(t, c).drop_first() =~= Seq::<Seq<char>>::empty());
            assert(split_on(s, c) =~= seq![s]);
        } else if s[i] == c {
            let r = split_on(t, c);
            assert(t[i - 1] == s[i]);
            assert(r == seq![t.take(i - 1)] + split_on(t.skip(i), c));
            lemma_split_on_len(t.skip(i), c);
            assert(r[0] == t.take(i - 1));
            assert(r.drop_first() =~= split_on(t.skip(i), c));
            assert(seq![s[0]] + t.take(i - 1) =~= s.take(i));
            assert(t.skip(i) =~= s.skip(i + 1));
            assert(split_on(s, c) =~= seq![s.take(i)] + split_on(s.skip(i + 1), c));
        }
    }
}

/// The same unfolding for `splitn_on` with `n >= 2`.
proof fn lemma_splitn_on_unfold(s: Seq<char>, c: char, n: nat, i: int)
    requires
        n >= 2,
        0 <= i <= s.len(),
        forall|j: int| 0 <= j < i ==> s[j] != c,
    ensures
        i == s.len() ==> splitn_on(s, c, n) == seq![s],
        i < s.len() && s[i] == c ==> splitn_on(s, c, n) == seq![s.take(i)] + splitn_on(
            s.skip(i + 1),
            c,
            (n - 1) as nat,
        ),
    decreases i,
{
    if i == 0 {
        if s.len() != 0 && s[0] == c {
            assert(s.take(0) =~= Seq::<char>::empty());
            assert(s.skip(1) =~= s.drop_first());
        }
    } else {
        let t = s.drop_first();
        lemma_splitn_on_unfold(t, c, n, i - 1);
        if i == s.len() {
            assert(splitn_on(s, c, n) =~= seq![seq![s[0]] + t] + splitn_on(t, c, n).drop_first());
            assert(seq![s[0]] + t =~= s);
            assert(splitn_on(s, c, n) =~= seq![s]);
        } else if s[i] == c {
            let r = splitn_on(t, c, n);
            assert(t[i - 1] == s[i]);
            assert(r == seq![t.take(i - 1)] + splitn_on(t.skip(i), c, (n - 1) as nat));
            lemma_splitn_on_len(t.skip(i), c, (n - 1) as nat);
            assert(r.drop_first() =~= splitn_on(t.skip(i), c, (n - 1) as nat));
            assert(seq![s[0]] + t.take(i - 1) =~= s.take(i));
            assert(t.skip(i) =~= s.skip(i + 1));
            assert(splitn_on(s, c, n) =~= seq![s.take(i)] + splitn_on(
                s.skip(i + 1),
                c,
                (n - 1) as nat,
            ));
        }
    }
}

/// Law: a bounded split never loses text and never divides early parts.
/// Joining the parts with the separator restores the input exactly, and
/// only the final part can still contain the separator — which is why a
/// record's last field absorbs any remaining separators undivided.
pub proof fn lemma_splitn_on_join(s: Seq<char>, c: char, n: nat)
    requires
        n >= 1,
    ensures
        join_on(splitn_on(s, c, n), c) == s,
        forall|i: int|
            0 <= i < splitn_on(s, c, n).len() - 1 ==> !(#[trigger] splitn_on(s, c, n)[i]).contains(
                c,
            ),
    decreases s.len(),
{
    let parts = splitn_on(s, c, n);
    if n <= 1 || s.len() == 0 {
        assert(parts == seq![s]);
    } else if s[0] == c {
        let t = s.drop_first();
        lemma_splitn_on_join(t, c, (n - 1) as nat);
        let sub = splitn_on(t, c, (n - 1) as nat);
        lemma_splitn_on_len(t, c, (n - 1) as nat);
        assert(parts == seq![Seq::<char>::empty()] + sub);
        assert(parts.drop_first() =~= sub);
        assert(join_on(parts, c) =~= Seq::<char>::empty() + seq![c] + join_on(sub, c));
        assert(join_on(parts, c) =~= s);
        assert forall|i: int| 0 <= i < parts.len() - 1 implies !(#[trigger] parts[i]).contains(
            c,
        ) by {
            if i > 0 {
                assert(parts[i] == sub[i - 1]);
            }
        }
    } else {
        let t = s.drop_first();
        lemma_splitn_on_join(t, c, n);
        let sub = splitn_on(t, c, n);
        lemma_splitn_on_len(t, c, n);
        assert(parts == seq![seq![s[0]] + sub[0]] + sub.drop_first());
        if sub.len() == 1 {
            assert(parts =~= seq![seq![s[0]] + sub[0]]);
            assert(join_on(sub, c) == sub[0]);
            assert(join_on(parts, c) =~= seq![s[0]] + sub[0]);
            assert(join_on(parts, c) =~= s);
            assert forall|i: int| 0 <= i < parts.len() - 1 implies !(
            #[trigger] parts[i]).contains(c) by {}
        } else {
            assert(parts.len() == sub.len());
            assert(parts.drop_first() =~= sub.drop_first());
            assert(join_on(sub, c) == sub[0] + seq![c] + join_on(sub.drop_first(), c));
            assert(join_on(parts, c) == parts[0] + seq![c] + join_on(parts.drop_first(), c));
            assert(join_on(parts, c) =~= seq![s[0]] + join_on(sub, c));
            assert(join_on(parts, c) =~= s);
            assert forall|i: int| 0 <= i < parts.len() - 1 implies !(
            #[trigger] parts[i]).contains(c) by {
                if i == 0 {
                    assert(!sub[0].contains(c));
                    assert(s[0] != c);
                    if parts[0].contains(c) {
                        let k = choose|k: int| 0 <= k < parts[0].len() && parts[0][k] == c;
                        assert(k > 0);
                        assert(parts[0][k] == sub[0][k - 1]);
                        assert(sub[0].contains(c));
                        assert(false);
                    }
                } else {
                    assert(parts[i] == sub[i]);
                }
            }
        }
    }
}

/// A string without the separator splits into itself alone.
pub proof fn lemma_split_on_whole(a: Seq<char>, c: char)
    requires
        !a.contains(c),
    ensures
        split_on(a, c) == seq![a],
{
    assert forall|j: int| 0 <= j < a.len() implies a[j] != c by {
        if a[j] == c {
            assert(a.contains(c));
        }
    }
    lemma_split_on_unfold(a, c, a.len() as int);
}

/// Splitting a concatenation whose first part contains no separator
/// peels that part off.
pub proof fn lemma_split_on_concat(a: Seq<char>, c: char, b: Seq<char>)
    requires
        !a.contains(c),
    ensures
        split_on(a + seq![c] + b, c) == seq![a] + split_on(b, c),
{
    let s = a + seq![c] + b;
    assert forall|j: int| 0 <= j < a.len() implies s[j] != c by {
        assert(s[j] == a[j]);
        if a[j] == c {
            assert(a.contains(c));
        }
    }
    assert(s[a.len() as int] == c);
    lemma_split_on_unfold(s, c, a.len() as int);
    assert(s.take(a.len() as int) =~= a);
    assert(s.skip(a.len() as int + 1) =~= b);
}

/// A line with its trailing carriage return removed.
pub open spec fn strip_cr(l: Seq<char>) -> Seq<char> {
    if l.len() > 0 && l.last() == '\r' {
        l.drop_last()
    } else {
        l
    }
}

/// The physical lines of a text: divided at every line feed, each line
/// stripped of one trailing carriage return.
pub open spec fn lines_of(s: Seq<char>) -> Seq<Seq<char>> {
    split_on(s, '\n').map_values(|l: Seq<char>| strip_cr(l))
}

/// Divides a text into its physical lines.
pub fn split_lines<'x>(s: &'x str) -> (lines: Vec<&'x str>)
    ensures
        lines@.map_values(|l: &str| l@) == lines_of(s@),
{
    let raw = split_on_str(s, '\n');
    let mut lines: Vec<&'x str> = Vec::new();
    let mut i: usize = 0;
    while i < raw.len()
        invariant
            raw@.map_values(|p: &str| p@) == split_on(s@, '\n'),
            i <= raw.len(),
            lines@.map_values(|l: &str| l@) == lines_of(s@).take(i as int),
        decreases raw.len() - i,
    {
        let line: &'x str = raw[i];
        let len = line.unicode_len();
        let ghost before = lines@;
        if len > 0 && line.get_char(len - 1) == '\r' {
            let stripped = line.substring_char(0, len - 1);
            proof {
                assert(stripped@ =~= line@.drop_last());
            }
            lines.push(stripped);
        } else {
            lines.push(line);
        }
        proof {
            assert(lines@.map_values(|l: &str| l@) =~= before.map_values(|l: &str| l@) + seq![
                strip_cr(line@),
            ]);
            assert(lines@.map_values(|l: &str| l@) =~= lines_of(s@).take(i + 1));
        }
        i = i + 1;
    }
    proof {
        assert(lines_of(s@).take(raw@.len() as int) =~= lines_of(s@));
    }
    lines
}

/// Finds the first occurrence of `c` in `s`.
pub fn find_char(s: &str, c: char) -> (r: Option<usize>)
    ensures
        match r {
            Some(i) => i < s@.len() && s@[i as int] == c && forall|j: int|
                0 <= j < i ==> s@[j] != c,
            None => forall|j: int| 0 <= j < s@.len() ==> s@[j] != c,
        },
{
    let len = s.unicode_len();
    let mut i: usize = 0;
    while i < len
        invariant
            len == s@.len(),
            i <= len,
            forall|j: int| 0 <= j < i ==> s@[j] != c,
        decreases len - i,
    {
        if s.get_char(i) == c {
            return Some(i);
        }
        i = i + 1;
    }
    None
}

/// Splits a string slice at every occurrence of `c`.
pub fn split_on_str<'x>(s: &'x str, c: char) -> (parts: Vec<&'x str>)
    ensures
        parts@.map_values(|p: &str| p@) == split_on(s@, c),
{
    let mut parts: Vec<&'x str> = Vec::new();
    let mut rem: &'x str = s;
    loop
        invariant
            split_on(s@, c) == parts@.map_values(|p: &str| p@) + split_on(rem@, c),
        decreases rem@.len(),
    {
        match find_char(rem, c) {
            None => {
                proof {
                    lemma_split_on_unfold(rem@, c, rem@.len() as int);
                }
                let ghost old_parts = parts@;
                parts.push(rem);
                proof {
                    assert(parts@.map_values(|p: &str| p@) =~= old_parts.map_values(|p: &str| p@)
                        + seq![rem@]);
                    assert(parts@.map_values(|p: &str| p@) =~= split_on(s@, c));
                }
                return parts;
            },
            Some(i) => {
                proof {
                    lemma_split_on_unfold(rem@, c, i as int);
                }
                let len = rem.unicode_len();
                let head = rem.substring_char(0, i);
                let tail = rem.substring_char(i + 1, len);
                let ghost old_parts = parts@;
                let ghost old_rem = rem@;
                parts.push(head);
                rem = tail;
                proof {
                    assert(head@ =~= old_rem.take(i as int));
                    assert(rem@ =~= old_rem.skip(i + 1));
                    assert(parts@.map_values(|p: &str| p@) =~= old_parts.map_values(|p: &str| p@)
                        + seq![head@]);
                    assert(split_on(s@, c) =~= parts@.map_values(|p: &str| p@) + split_on(
                        rem@,
                        c,
                    ));
                }
            },
        }
    }
}

/// Splits a string slice at occurrences of `c` into at most `n` parts.
pub fn splitn_on_str<'x>(s: &'x str, c: char, n: usize) -> (parts: Vec<&'x str>)
    requires
        n >= 1,
    ensures
        parts@.map_values(|p: &str| p@) == splitn_on(s@, c, n as nat),
{
    let mut parts: Vec<&'x str> = Vec::new();
    let mut rem: &'x str = s;
    let mut left: usize = n;
    loop
        invariant
            left >= 1,
            splitn_on(s@, c, n as nat) == parts@.map_values(|p: &str| p@) + splitn_on(
                rem@,
                c,
                left as nat,
            ),
        decreases left,
    {
        if left == 1 {
            let ghost old_parts = parts@;
            parts.push(rem);
            proof {
                assert(splitn_on(rem@, c, 1) == seq![rem@]);
                assert(parts@.map_values(|p: &str| p@) =~= old_parts.map_values(|p: &str| p@)
                    + seq![rem@]);
                assert(parts@.map_values(|p: &str| p@) =~= splitn_on(s@, c, n as nat));
            }
            return parts;
        }
        match find_char(rem, c) {
            None => {
                proof {
                    lemma_splitn_on_unfold(rem@, c, left as nat, rem@.len() as int);
                }
                let ghost old_parts = parts@;
                parts.push(rem);
                proof {
                    assert(parts@.map_values(|p: &str| p@) =~= old_parts.map_values(|p: &str| p@)
                        + seq![rem@]);
                    assert(parts@.map_values(|p: &str| p@) =~= splitn_on(s@, c, n as nat));
                }
                return parts;
            },
            Some(i) => {
                proof {
                    lemma_splitn_on_unfold(rem@, c, left as nat, i as int);
                }
                let len = rem.unicode_len();
                let head = rem.substring_char(0, i);
                let tail = rem.substring_char(i + 1, len);
                let ghost old_parts = parts@;
                let ghost old_rem = rem@;
                parts.push(head);
                rem = tail;
                left = left - 1;
                proof {
                    assert(head@ =~= old_rem.take(i as int));
                    assert(rem@ =~= old_rem.skip(i + 1));
                    assert(parts@.map_values(|p: &str| p@) =~= old_parts.map_values(|p: &str| p@)
                        + seq![head@]);
                    assert(splitn_on(s@, c, n as nat) =~= parts@.map_values(|p: &str| p@)
                        + splitn_on(rem@, c, left as nat));
                }
            },
        }
    }
}

} // verus!
