//! Character-level helpers shared by all value codecs: decimal and
//! hexadecimal integer text, and small trusted bridges to `std`'s string
//! primitives that vstd does not specify.

use vstd::prelude::*;

verus! {

/// Relies on String::push: appends the given character to the end of the string.
#[verifier::external_body]
pub fn push_char(s: &mut String, c: char)
    ensures
        final(s)@ == old(s)@.push(c),
{
    s.push(c);
}

/// Relies on str's PartialEq: two string slices are equal iff their characters are.
#[verifier::external_body]
pub fn str_eq(a: &str, b: &str) -> (r: bool)
    ensures
        r == (a@ == b@),
{
    a == b
}

pub open spec fn is_dec_digit(c: char) -> bool {
    '0' <= c && c <= '9'
}

pub open spec fn dec_digit_val(c: char) -> nat {
    (c as nat - '0' as nat) as nat
}

/// The decimal digit character for `d` (only meaningful for `d < 10`).
pub open spec fn dec_digit_char(d: nat) -> char {
    if d == 0 { '0' }
    else if d == 1 { '1' }
    else if d == 2 { '2' }
    else if d == 3 { '3' }
    else if d == 4 { '4' }
    else if d == 5 { '5' }
    else if d == 6 { '6' }
    else if d == 7 { '7' }
    else if d == 8 { '8' }
    else { '9' }
}

/// The canonical decimal rendering of `n`, without leading zeroes.
pub open spec fn spec_dec_digits(n: nat) -> Seq<char>
    decreases n,
{
    if n < 10 {
        seq![dec_digit_char(n)]
    } else {
        spec_dec_digits(n / 10).push(dec_digit_char(n % 10))
    }
}

/// The value of a digit string read left to right, or `None` if `s` is empty
/// or holds a non-digit character.
pub open spec fn spec_parse_dec(s: Seq<char>) -> Option<nat>
    decreases s.len(),
{
    if s.len() == 0 {
        None
    } else if !is_dec_digit(s.last()) {
        None
    } else if s.len() == 1 {
        Some(dec_digit_val(s.last()))
    } else {
        match spec_parse_dec(s.drop_last()) {
            None => None,
            Some(hi) => Some(hi * 10 + dec_digit_val(s.last())),
        }
    }
}

pub proof fn lemma_dec_digits_are_digits(n: nat)
    ensures
        forall|i: int| 0 <= i < spec_dec_digits(n).len() ==> is_dec_digit(#[trigger] spec_dec_digits(n)[i]),
        spec_dec_digits(n).len() >= 1,
    decreases n,
{
    if n >= 10 {
        lemma_dec_digits_are_digits(n / 10);
    }
}

/// Formatting then parsing a number gives the number back.
pub proof fn lemma_dec_round_trip(n: nat)
    ensures
        spec_parse_dec(spec_dec_digits(n)) == Some(n),
    decreases n,
{
    if n < 10 {
        assert(spec_dec_digits(n) =~= seq![dec_digit_char(n)]);
    } else {
        lemma_dec_round_trip(n / 10);
        lemma_dec_digits_are_digits(n / 10);
        let s = spec_dec_digits(n);
        assert(s.drop_last() =~= spec_dec_digits(n / 10));
        assert(s.last() == dec_digit_char(n % 10));
        assert(n / 10 * 10 + n % 10 == n) by (nonlinear_arith);
    }
}

pub fn dec_digit_to_char(d: u64) -> (c: char)
    requires
        d < 10,
    ensures
        c == dec_digit_char(d as nat),
{
    match d {
        0 => '0',
        1 => '1',
        2 => '2',
        3 => '3',
        4 => '4',
        5 => '5',
        6 => '6',
        7 => '7',
        8 => '8',
        _ => '9',
    }
}

/// Renders `n` in decimal, exactly as `spec_dec_digits` describes.
pub fn format_u64(n: u64) -> (r: String)
    ensures
        r@ == spec_dec_digits(n as nat),
    decreases n,
{
    if n < 10 {
        let mut s = String::new();
        push_char(&mut s, dec_digit_to_char(n));
        proof {
            assert(s@ =~= spec_dec_digits(n as nat));
        }
        s
    } else {
        let mut s = format_u64(n / 10);
        push_char(&mut s, dec_digit_to_char(n % 10));
        s
    }
}

pub fn char_to_dec_digit(c: char) -> (r: Option<u8>)
    ensures
        match r {
            Some(d) => is_dec_digit(c) && d as nat == dec_digit_val(c) && d < 10,
            None => !is_dec_digit(c),
        },
{
    if c >= '0' && c <= '9' {
        Some((c as u8) - ('0' as u8))
    } else {
        None
    }
}

/// Parses a decimal digit string into a `u64`.  Fails exactly when the string
/// is not a digit string or its value does not fit.
pub fn parse_u64_dec(s: &str) -> (r: Option<u64>)
    ensures
        match r {
            Some(n) => spec_parse_dec(s@) == Some(n as nat),
            None => spec_parse_dec(s@) is None
                || (spec_parse_dec(s@) matches Some(v) && v > u64::MAX),
        },
{
    let len = s.unicode_len();
    if len == 0 {
        return None;
    }
    let mut acc: u64 = 0;
    let mut i: usize = 0;
    while i < len
        invariant
            0 < len == s@.len(),
            0 <= i <= len,
            if i == 0 {
                acc == 0
            } else {
                spec_parse_dec(s@.take(i as int)) == Some(acc as nat)
            },
        decreases len - i,
    {
        let c = s.get_char(i);
        let d = match char_to_dec_digit(c) {
            Some(d) => d,
            None => {
                proof {
                    lemma_parse_dec_bad_digit(s@, i as int);
                }
                return None;
            },
        };
        if acc > (u64::MAX - d as u64) / 10 {
            proof {
                lemma_parse_dec_prefix_monotone(s@, i + 1);
                assert(s@.take(i + 1).drop_last() =~= s@.take(i as int));
                assert(spec_parse_dec(s@.take(i + 1)) matches Some(v) && v > u64::MAX) by {
                    assert(acc * 10 + d as nat > u64::MAX) by (nonlinear_arith)
                        requires
                            acc > (u64::MAX - d as u64) / 10,
                            d < 10,
                    ;
                }
            }
            return None;
        }
        proof {
            assert(acc * 10 + d as nat <= u64::MAX) by (nonlinear_arith)
                requires
                    acc <= (u64::MAX - d as u64) / 10,
                    d < 10,
            ;
            assert(s@.take(i + 1).drop_last() =~= s@.take(i as int));
            assert(s@.take(i + 1).last() == c);
        }
        acc = acc * 10 + d as u64;
        i = i + 1;
    }
    proof {
        assert(s@.take(len as int) =~= s@);
    }
    Some(acc)
}

/// If some digit of `s` is bad, the whole string does not parse.
proof fn lemma_parse_dec_bad_digit(s: Seq<char>, i: int)
    requires
        0 <= i < s.len(),
        !is_dec_digit(s[i]),
    ensures
        spec_parse_dec(s) is None,
    decreases s.len(),
{
    if s.len() > 0 {
        if i == s.len() - 1 {
        } else {
            lemma_parse_dec_bad_digit(s.drop_last(), i);
        }
    }
}

/// If a prefix of a digit string is too large, the whole string is too.
proof fn lemma_parse_dec_prefix_monotone(s: Seq<char>, i: int)
    requires
        0 < i <= s.len(),
    ensures
        (match (spec_parse_dec(s.take(i)), spec_parse_dec(s)) {
            (Some(p), Some(v)) => p <= v,
            (None, r) => r is None,
            _ => true,
        }),
    decreases s.len() - i,
{
    if i == s.len() {
        assert(s.take(i) =~= s);
    } else {
        lemma_parse_dec_prefix_monotone(s, i + 1);
        assert(s.take(i + 1).drop_last() =~= s.take(i));
        if spec_parse_dec(s.take(i)) is Some {
            let p = spec_parse_dec(s.take(i)).unwrap();
            if is_dec_digit(s.take(i + 1).last()) {
                assert(p <= p * 10 + dec_digit_val(s[i])) by (nonlinear_arith);
            }
        }
    }
}

pub open spec fn is_hex_digit(c: char) -> bool {
    ('0' <= c && c <= '9') || ('a' <= c && c <= 'f') || ('A' <= c && c <= 'F')
}

pub open spec fn hex_digit_val(c: char) -> nat {
    if '0' <= c && c <= '9' {
        (c as nat - '0' as nat) as nat
    } else if 'a' <= c && c <= 'f' {
        (c as nat - 'a' as nat + 10) as nat
    } else {
        (c as nat - 'A' as nat + 10) as nat
    }
}

/// The value of a hexadecimal digit string, or `None` if `s` is empty or
/// holds a character that is no hex digit.
pub open spec fn spec_parse_hex(s: Seq<char>) -> Option<nat>
    decreases s.len(),
{
    if s.len() == 0 {
        None
    } else if !is_hex_digit(s.last()) {
        None
    } else if s.len() == 1 {
        Some(hex_digit_val(s.last()))
    } else {
        match spec_parse_hex(s.drop_last()) {
            None => None,
            Some(hi) => Some(hi * 16 + hex_digit_val(s.last())),
        }
    }
}

pub fn char_to_hex_digit(c: char) -> (r: Option<u8>)
    ensures
        match r {
            Some(d) => is_hex_digit(c) && d as nat == hex_digit_val(c) && d < 16,
            None => !is_hex_digit(c),
        },
{
    if c >= '0' && c <= '9' {
        Some((c as u8) - ('0' as u8))
    } else if c >= 'a' && c <= 'f' {
        Some((c as u8) - ('a' as u8) + 10)
    } else if c >= 'A' && c <= 'F' {
        Some((c as u8) - ('A' as u8) + 10)
    } else {
        None
    }
}

proof fn lemma_parse_hex_bad_digit(s: Seq<char>, i: int)
    requires
        0 <= i < s.len(),
        !is_hex_digit(s[i]),
    ensures
        spec_parse_hex(s) is None,
    decreases s.len(),
{
    if s.len() > 0 {
        if i == s.len() - 1 {
        } else {
            lemma_parse_hex_bad_digit(s.drop_last(), i);
        }
    }
}

proof fn lemma_parse_hex_prefix_monotone(s: Seq<char>, i: int)
    requires
        0 < i <= s.len(),
    ensures
        (match (spec_parse_hex(s.take(i)), spec_parse_hex(s)) {
            (Some(p), Some(v)) => p <= v,
            (None, r) => r is None,
            _ => true,
        }),
    decreases s.len() - i,
{
    if i == s.len() {
        assert(s.take(i) =~= s);
    } else {
        lemma_parse_hex_prefix_monotone(s, i + 1);
        assert(s.take(i + 1).drop_last() =~= s.take(i));
        if spec_parse_hex(s.take(i)) is Some {
            let p = spec_parse_hex(s.take(i)).unwrap();
            if is_hex_digit(s.take(i + 1).last()) {
                assert(p <= p * 16 + hex_digit_val(s[i])) by (nonlinear_arith);
            }
        }
    }
}

/// Parses a hexadecimal digit string into a `u64`.
pub fn parse_u64_hex(s: &str) -> (r: Option<u64>)
    ensures
        match r {
            Some(n) => spec_parse_hex(s@) == Some(n as nat),
            None => spec_parse_hex(s@) is None
                || (spec_parse_hex(s@) matches Some(v) && v > u64::MAX),
        },
{
    let len = s.unicode_len();
    if len == 0 {
        return None;
    }
    let mut acc: u64 = 0;
    let mut i: usize = 0;
    while i < len
        invariant
            0 < len == s@.len(),
            0 <= i <= len,
            if i == 0 {
                acc == 0
            } else {
                spec_parse_hex(s@.take(i as int)) == Some(acc as nat)
            },
        decreases len - i,
    {
        let c = s.get_char(i);
        let d = match char_to_hex_digit(c) {
            Some(d) => d,
            None => {
                proof {
                    lemma_parse_hex_bad_digit(s@, i as int);
                }
                return None;
            },
        };
        if acc > (u64::MAX - d as u64) / 16 {
            proof {
                lemma_parse_hex_prefix_monotone(s@, i + 1);
                assert(s@.take(i + 1).drop_last() =~= s@.take(i as int));
                assert(spec_parse_hex(s@.take(i + 1)) matches Some(v) && v > u64::MAX) by {
                    assert(acc * 16 + d as nat > u64::MAX) by (nonlinear_arith)
                        requires
                            acc > (u64::MAX - d as u64) / 16,
                            d < 16,
                    ;
                }
            }
            return None;
        }
        proof {
            assert(acc * 16 + d as nat <= u64::MAX) by (nonlinear_arith)
                requires
                    acc <= (u64::MAX - d as u64) / 16,
                    d < 16,
            ;
            assert(s@.take(i + 1).drop_last() =~= s@.take(i as int));
            assert(s@.take(i + 1).last() == c);
        }
        acc = acc * 16 + d as u64;
        i = i + 1;
    }
    proof {
        assert(s@.take(len as int) =~= s@);
    }
    Some(acc)
}

/// Extracts the characters `from..to` of `s` as an owned string.
pub fn substring(s: &str, from: usize, to: usize) -> (r: String)
    requires
        from <= to <= s@.len(),
    ensures
        r@ == s@.subrange(from as int, to as int),
{
    let sub = s.substring_char(from, to);
    sub.to_owned()
}

/// The index of the first occurrence of `c` in `s`, if any.
pub open spec fn spec_find_char(s: Seq<char>, c: char) -> Option<int>
    decreases s.len(),
{
    if s.len() == 0 {
        None
    } else if s[0] == c {
        Some(0)
    } else {
        match spec_find_char(s.skip(1), c) {
            Some(i) => Some(i + 1),
            None => None,
        }
    }
}

/// If `i` is the first occurrence of `c`, the spec search finds it.
pub proof fn lemma_find_char_first(s: Seq<char>, c: char, i: int)
    requires
        0 <= i < s.len(),
        s[i] == c,
        forall|j: int| 0 <= j < i ==> s[j] != c,
    ensures
        spec_find_char(s, c) == Some(i),
    decreases s.len(),
{
    if i > 0 {
        lemma_find_char_first(s.skip(1), c, i - 1);
    }
}

/// If `c` occurs nowhere, the spec search finds nothing.
pub proof fn lemma_find_char_absent(s: Seq<char>, c: char)
    requires
        forall|j: int| 0 <= j < s.len() ==> s[j] != c,
    ensures
        spec_find_char(s, c) is None,
    decreases s.len(),
{
    if s.len() > 0 {
        lemma_find_char_absent(s.skip(1), c);
    }
}

/// What the spec search returns is a first occurrence.
pub proof fn lemma_find_char_props(s: Seq<char>, c: char)
    ensures
        match spec_find_char(s, c) {
            Some(i) => 0 <= i < s.len() && s[i] == c && (forall|j: int| 0 <= j < i ==> s[j]
                != c),
            None => forall|j: int| 0 <= j < s.len() ==> s[j] != c,
        },
    decreases s.len(),
{
    if s.len() > 0 && s[0] != c {
        let t = s.skip(1);
        lemma_find_char_props(t, c);
        assert(forall|j: int| 0 <= j < t.len() ==> #[trigger] t[j] == s[j + 1]);
        match spec_find_char(t, c) {
            Some(i) => {
                assert(s[i + 1] == c);
                assert(forall|j: int| 1 <= j < i + 1 ==> s[j] == t[j - 1] && s[j] != c);
            },
            None => {
                assert forall|j: int| 1 <= j < s.len() implies s[j] != c by {
                    assert(t[j - 1] == s[j]);
                }
            },
        }
    }
}

/// The position of the first occurrence of `c` in `s`, if any.
pub fn find_char(s: &str, c: char) -> (r: Option<usize>)
    ensures
        match r {
            Some(i) => spec_find_char(s@, c) == Some(i as int) && i < s@.len() && s@[i as int]
                == c && (forall|j: int| 0 <= j < i ==> s@[j] != c),
            None => spec_find_char(s@, c) is None,
        },
{
    let len = s.unicode_len();
    let mut i: usize = 0;
    while i < len
        invariant
            len == s@.len(),
            0 <= i <= len,
            forall|j: int| 0 <= j < i ==> s@[j] != c,
        decreases len - i,
    {
        if s.get_char(i) == c {
            proof {
                lemma_find_char_first(s@, c, i as int);
            }
            return Some(i);
        }
        i = i + 1;
    }
    proof {
        lemma_find_char_absent(s@, c);
    }
    None
}

} // verus!
