//! Decimal and hexadecimal digit handling: parsing unsigned integers from
//! text and formatting them back, with exact specifications.

use vstd::prelude::*;
use vstd::string::StrSliceExecFns;
use vstd::string::StringExecFns;

verus! {

pub open spec fn is_dec_digit(c: char) -> bool {
    '0' <= c <= '9'
}

pub open spec fn dec_digit_val(c: char) -> nat {
    (c as nat - '0' as nat) as nat
}

pub open spec fn is_dec_digits(s: Seq<char>) -> bool {
    forall|i: int| 0 <= i < s.len() ==> is_dec_digit(#[trigger] s[i])
}

/// The numeric value of a string of decimal digits.
pub open spec fn dec_val(s: Seq<char>) -> nat
    decreases s.len(),
{
    if s.len() == 0 {
        0
    } else {
        dec_val(s.drop_last()) * 10 + dec_digit_val(s.last())
    }
}

/// The digit string that `parse_u64_spec` and friends read: an optional
/// leading `+` followed by at least one decimal digit.
pub open spec fn digits_part(s: Seq<char>) -> Seq<char> {
    if s.len() > 0 && s[0] == '+' {
        s.drop_first()
    } else {
        s
    }
}

pub open spec fn parse_u64_spec(s: Seq<char>) -> Option<u64> {
    let t = digits_part(s);
    if t.len() > 0 && is_dec_digits(t) && dec_val(t) <= u64::MAX {
        Some(dec_val(t) as u64)
    } else {
        None
    }
}

pub open spec fn parse_u32_spec(s: Seq<char>) -> Option<u32> {
    let t = digits_part(s);
    if t.len() > 0 && is_dec_digits(t) && dec_val(t) <= u32::MAX {
        Some(dec_val(t) as u32)
    } else {
        None
    }
}

pub open spec fn parse_u8_spec(s: Seq<char>) -> Option<u8> {
    let t = digits_part(s);
    if t.len() > 0 && is_dec_digits(t) && dec_val(t) <= u8::MAX {
        Some(dec_val(t) as u8)
    } else {
        None
    }
}

/// A digit string's value only grows as more digits are appended.
proof fn lemma_dec_val_prefix_le(s: Seq<char>, j: int)
    requires
        0 <= j <= s.len(),
    ensures
        dec_val(s.take(j)) <= dec_val(s),
    decreases s.len() - j,
{
    if j == s.len() {
        assert(s.take(j) =~= s);
    } else {
        lemma_dec_val_prefix_le(s.drop_last(), j);
        assert(s.drop_last().take(j) =~= s.take(j));
        assert(dec_val(s) == dec_val(s.drop_last()) * 10 + dec_digit_val(s.last()));
        assert(dec_val(s.drop_last()) * 10 >= dec_val(s.drop_last())) by (nonlinear_arith);
    }
}

/// Parses an unsigned decimal integer, as the standard numeric literal
/// parser does for `u64`: an optional leading `+`, then only digits;
/// fails on anything else and on overflow.
pub fn parse_u64(s: &str) -> (r: Option<u64>)
    ensures
        r == parse_u64_spec(s@),
{
    let len = s.unicode_len();
    let start: usize = if len > 0 && s.get_char(0) == '+' {
        1
    } else {
        0
    };
    proof {
        if start == 1 {
            assert(digits_part(s@) =~= s@.skip(1));
        } else {
            assert(digits_part(s@) =~= s@);
        }
    }
    let ghost t = digits_part(s@);
    if len == start {
        return None;
    }
    let mut acc: u64 = 0;
    let mut i: usize = start;
    while i < len
        invariant
            len == s@.len(),
            start <= i <= len,
            start < len,
            t == digits_part(s@),
            t == s@.skip(start as int),
            is_dec_digits(t.take(i - start)),
            acc == dec_val(t.take(i - start)),
        decreases len - i,
    {
        let c = s.get_char(i);
        if !('0' <= c && c <= '9') {
            assert(t[i - start] == c);
            return None;
        }
        let d: u64 = (c as u32 - '0' as u32) as u64;
        let wide: u128 = acc as u128 * 10 + d as u128;
        proof {
            assert(t.take(i - start + 1).drop_last() =~= t.take(i - start));
            assert(t.take(i - start + 1).last() == c);
        }
        if wide > u64::MAX as u128 {
            proof {
                lemma_dec_val_prefix_le(t, i - start + 1);
            }
            return None;
        }
        acc = wide as u64;
        i = i + 1;
    }
    proof {
        assert(t.take(len - start) =~= t);
    }
    Some(acc)
}

/// Parses an unsigned decimal integer into `u32`.
pub fn parse_u32(s: &str) -> (r: Option<u32>)
    ensures
        r == parse_u32_spec(s@),
{
    match parse_u64(s) {
        Some(v) if v <= u32::MAX as u64 => Some(v as u32),
        _ => None,
    }
}

/// Parses an unsigned decimal integer into `u8`.
pub fn parse_u8(s: &str) -> (r: Option<u8>)
    ensures
        r == parse_u8_spec(s@),
{
    match parse_u64(s) {
        Some(v) if v <= u8::MAX as u64 => Some(v as u8),
        _ => None,
    }
}

pub open spec fn is_hex_digit(c: char) -> bool {
    ('0' <= c <= '9') || ('a' <= c <= 'f') || ('A' <= c <= 'F')
}

pub open spec fn hex_digit_val(c: char) -> nat {
    if '0' <= c <= '9' {
        (c as nat - '0' as nat) as nat
    } else if 'a' <= c <= 'f' {
        (c as nat - 'a' as nat + 10) as nat
    } else {
        (c as nat - 'A' as nat + 10) as nat
    }
}

/// The value of a two-hex-digit group, or nothing when either character
/// is not a hexadecimal digit.
pub open spec fn hex_byte_spec(s: Seq<char>) -> Option<u8> {
    if s.len() == 2 && is_hex_digit(s[0]) && is_hex_digit(s[1]) {
        Some((hex_digit_val(s[0]) * 16 + hex_digit_val(s[1])) as u8)
    } else {
        None
    }
}

fn hex_digit(c: char) -> (r: Option<u8>)
    ensures
        match r {
            Some(v) => is_hex_digit(c) && v == hex_digit_val(c),
            None => !is_hex_digit(c),
        },
{
    if '0' <= c && c <= '9' {
        Some((c as u32 - '0' as u32) as u8)
    } else if 'a' <= c && c <= 'f' {
        Some((c as u32 - 'a' as u32 + 10) as u8)
    } else if 'A' <= c && c <= 'F' {
        Some((c as u32 - 'A' as u32 + 10) as u8)
    } else {
        None
    }
}

/// Reads a two-digit hexadecimal group from a string slice.
pub fn hex_byte(s: &str) -> (r: Option<u8>)
    ensures
        r == hex_byte_spec(s@),
{
    if s.unicode_len() != 2 {
        return None;
    }
    let h = hex_digit(s.get_char(0));
    let l = hex_digit(s.get_char(1));
    match (h, l) {
        (Some(hv), Some(lv)) => Some(hv * 16 + lv),
        _ => None,
    }
}

/// The canonical decimal digit string of `n`, with no sign and no
/// leading zeros (a single `0` for zero).
pub open spec fn dec_str(n: nat) -> Seq<char>
    decreases n,
{
    if n < 10 {
        seq![dec_digit_char(n)]
    } else {
        dec_str(n / 10) + seq![dec_digit_char(n % 10)]
    }
}

pub open spec fn dec_digit_char(d: nat) -> char {
    if d == 0 {
        '0'
    } else if d == 1 {
        '1'
    } else if d == 2 {
        '2'
    } else if d == 3 {
        '3'
    } else if d == 4 {
        '4'
    } else if d == 5 {
        '5'
    } else if d == 6 {
        '6'
    } else if d == 7 {
        '7'
    } else if d == 8 {
        '8'
    } else {
        '9'
    }
}

/// Two-digit zero-padded decimal form of `n < 100`.
pub open spec fn pad2(n: nat) -> Seq<char> {
    seq![dec_digit_char(n / 10), dec_digit_char(n % 10)]
}

pub proof fn lemma_dec_digit_char(d: nat)
    requires
        d < 10,
    ensures
        is_dec_digit(dec_digit_char(d)),
        dec_digit_val(dec_digit_char(d)) == d,
{
}

/// The canonical digit string consists of digits only.
pub proof fn lemma_dec_str_digits(n: nat)
    ensures
        dec_str(n).len() >= 1,
        is_dec_digits(dec_str(n)),
    decreases n,
{
    if n < 10 {
        lemma_dec_digit_char(n);
    } else {
        lemma_dec_str_digits(n / 10);
        lemma_dec_digit_char(n % 10);
        assert forall|i: int| 0 <= i < dec_str(n).len() implies is_dec_digit(
            #[trigger] dec_str(n)[i],
        ) by {
            if i < dec_str(n / 10).len() {
                assert(dec_str(n)[i] == dec_str(n / 10)[i]);
            }
        }
    }
}

/// Formatting and reading back are inverse: the digit string of `n`
/// evaluates to `n`.
pub proof fn lemma_dec_val_dec_str(n: nat)
    ensures
        dec_val(dec_str(n)) == n,
    decreases n,
{
    if n < 10 {
        lemma_dec_digit_char(n);
        let s = dec_str(n);
        assert(s == seq![dec_digit_char(n)]);
        assert(s.drop_last() =~= Seq::<char>::empty());
        assert(dec_val(Seq::<char>::empty()) == 0);
        assert(dec_val(s) == dec_val(s.drop_last()) * 10 + dec_digit_val(s.last()));
    } else {
        lemma_dec_val_dec_str(n / 10);
        lemma_dec_digit_char(n % 10);
        let s = dec_str(n);
        assert(s.drop_last() =~= dec_str(n / 10));
        assert(s.last() == dec_digit_char(n % 10));
        assert(dec_val(s) == dec_val(dec_str(n / 10)) * 10 + (n % 10));
        assert(n == (n / 10) * 10 + n % 10) by {
            vstd::arithmetic::div_mod::lemma_fundamental_div_mod(n as int, 10);
        }
    }
}

pub proof fn lemma_pad2(n: nat)
    requires
        n < 100,
    ensures
        pad2(n).len() == 2,
        is_dec_digits(pad2(n)),
        dec_val(pad2(n)) == n,
{
    lemma_dec_digit_char(n / 10);
    lemma_dec_digit_char(n % 10);
    let s = pad2(n);
    let s1 = s.drop_last();
    assert(s1 =~= seq![dec_digit_char(n / 10)]);
    assert(s1.drop_last() =~= Seq::<char>::empty());
    assert(dec_val(Seq::<char>::empty()) == 0);
    assert(dec_val(s1) == dec_val(s1.drop_last()) * 10 + dec_digit_val(s1.last()));
    assert(dec_val(s1) == n / 10);
    assert(s.last() == dec_digit_char(n % 10));
    assert(dec_val(s) == dec_val(s1) * 10 + dec_digit_val(s.last()));
    assert(dec_val(s) == (n / 10) * 10 + n % 10);
    assert(n == (n / 10) * 10 + n % 10) by {
        vstd::arithmetic::div_mod::lemma_fundamental_div_mod(n as int, 10);
    }
    assert forall|i: int| 0 <= i < s.len() implies is_dec_digit(#[trigger] s[i]) by {
        assert(i == 0 || i == 1);
    }
}

/// A string of decimal digits contains no non-digit character.
pub proof fn lemma_digits_not_contains(s: Seq<char>, c: char)
    requires
        is_dec_digits(s),
        !is_dec_digit(c),
    ensures
        !s.contains(c),
{
    if s.contains(c) {
        let j = choose|j: int| 0 <= j < s.len() && s[j] == c;
        assert(is_dec_digit(s[j]));
    }
}

/// A one-character string slice for a single decimal digit.
pub fn digit_str(d: u8) -> (r: &'static str)
    requires
        d < 10,
    ensures
        r@ == seq![dec_digit_char(d as nat)],
{
    proof {
        reveal_strlit("0");
        reveal_strlit("1");
        reveal_strlit("2");
        reveal_strlit("3");
        reveal_strlit("4");
        reveal_strlit("5");
        reveal_strlit("6");
        reveal_strlit("7");
        reveal_strlit("8");
        reveal_strlit("9");
    }
    let r = match d {
        0 => "0",
        1 => "1",
        2 => "2",
        3 => "3",
        4 => "4",
        5 => "5",
        6 => "6",
        7 => "7",
        8 => "8",
        _ => "9",
    };
    proof {
        assert(r@ =~= seq![dec_digit_char(d as nat)]);
    }
    r
}

/// Formats `n` as its canonical decimal digit string.
pub fn u64_to_dec(n: u64) -> (r: String)
    ensures
        r@ == dec_str(n as nat),
    decreases n,
{
if n < 10 {
        digit_str(n as u8).to_owned()
    } else {
        let mut s = u64_to_dec(n / 10);
        s.append(digit_str((n % 10) as u8));
        s
    }
}

/// Formats `n < 100` as two zero-padded decimal digits.
pub fn u64_to_pad2(n: u64) -> (r: String)
    requires
        n < 100,
    ensures
        r@ == pad2(n as nat),
{
let mut s = digit_str((n / 10) as u8).to_owned();
    s.append(digit_str((n % 10) as u8));
    proof {
        assert(s@ =~= pad2(n as nat));
    }
    s
}

} // verus!
