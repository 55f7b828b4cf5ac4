//! Verified text/number helpers: decimal rendering of integers, parsing of
//! integer literals, and the engine's own FNV-1a style hash, used for the
//! text-to-integer coercion and for the membership filter's probes.

use vstd::prelude::*;

verus! {

/// The decimal digit character for `d` (`0 <= d <= 9`).
pub open spec fn spec_digit_char(d: int) -> char {
    if d == 0 {
        '0'
    } else if d == 1 {
        '1'
    } else if d == 2 {
        '2'
    } else if d == 3 {
        '3'
    } else if d == 4 {
        '4'
    } else if d == 5 {
        '5'
    } else if d == 6 {
        '6'
    } else if d == 7 {
        '7'
    } else if d == 8 {
        '8'
    } else {
        '9'
    }
}

/// Decimal rendering of a non-negative integer, most significant digit first.
pub open spec fn spec_dec_nat(n: int) -> Seq<char>
    decreases n,
{
    if n < 10 {
        seq![spec_digit_char(n)]
    } else {
        spec_dec_nat(n / 10).push(spec_digit_char(n % 10))
    }
}

/// Decimal rendering of a signed integer: a leading '-' for negatives.
pub open spec fn spec_dec_int(i: int) -> Seq<char> {
    if i < 0 {
        seq!['-'] + spec_dec_nat(-i)
    } else {
        spec_dec_nat(i)
    }
}

fn digit_str(d: u64) -> (s: String)
    requires
        d <= 9,
    ensures
        s@ == seq![spec_digit_char(d as int)],
{
    let s = if d == 0 {
        proof { reveal_strlit("0"); }
        String::from_str("0")
    } else if d == 1 {
        proof { reveal_strlit("1"); }
        String::from_str("1")
    } else if d == 2 {
        proof { reveal_strlit("2"); }
        String::from_str("2")
    } else if d == 3 {
        proof { reveal_strlit("3"); }
        String::from_str("3")
    } else if d == 4 {
        proof { reveal_strlit("4"); }
        String::from_str("4")
    } else if d == 5 {
        proof { reveal_strlit("5"); }
        String::from_str("5")
    } else if d == 6 {
        proof { reveal_strlit("6"); }
        String::from_str("6")
    } else if d == 7 {
        proof { reveal_strlit("7"); }
        String::from_str("7")
    } else if d == 8 {
        proof { reveal_strlit("8"); }
        String::from_str("8")
    } else {
        proof { reveal_strlit("9"); }
        String::from_str("9")
    };
    proof {
        assert(s@ =~= seq![spec_digit_char(d as int)]);
    }
    s
}

fn dec_u64(n: u64) -> (s: String)
    ensures
        s@ == spec_dec_nat(n as int),
    decreases n,
{
    if n < 10 {
        digit_str(n)
    } else {
        let mut s = dec_u64(n / 10);
        let tail = digit_str(n % 10);
        s.append(tail.as_str());
        proof {
            assert(s@ =~= spec_dec_nat(n as int / 10).push(spec_digit_char(n as int % 10)));
        }
        s
    }
}

/// Decimal rendering of an `i64`, as `to_string` on the integer would give.
pub fn int_to_decimal(i: i64) -> (s: String)
    ensures
        s@ == spec_dec_int(i as int),
{
    if i >= 0 {
        dec_u64(i as u64)
    } else {
        let mag: u64 = if i == i64::MIN {
            9223372036854775808u64
        } else {
            (-i) as u64
        };
        proof {
            assert(mag as int == -(i as int));
            reveal_strlit("-");
        }
        let mut s = String::from_str("-");
        let tail = dec_u64(mag);
        s.append(tail.as_str());
        proof {
            assert(s@ =~= seq!['-'] + spec_dec_nat(-(i as int)));
        }
        s
    }
}

/// Whether `c` is a decimal digit.
pub open spec fn spec_is_digit(c: char) -> bool {
    '0' <= c && c <= '9'
}

/// The value of the digit character `c`.
pub open spec fn spec_digit_val(c: char) -> int {
    c as int - '0' as int
}

/// Whether every character of `s` is a decimal digit.
pub open spec fn spec_all_digits(s: Seq<char>) -> bool {
    forall|k: int| 0 <= k < s.len() ==> spec_is_digit(#[trigger] s[k])
}

/// The non-negative integer the digit string `s` denotes.
pub open spec fn spec_digits_val(s: Seq<char>) -> int
    decreases s.len(),
{
    if s.len() == 0 {
        0
    } else {
        spec_digits_val(s.drop_last()) * 10 + spec_digit_val(s.last())
    }
}

/// The body of an integer literal: the digits after an optional sign.
pub open spec fn spec_int_literal_body(s: Seq<char>) -> Seq<char> {
    if s.len() > 0 && (s[0] == '-' || s[0] == '+') {
        s.skip(1)
    } else {
        s
    }
}

/// The signed value an integer literal denotes, before any range check.
pub open spec fn spec_int_literal_val(s: Seq<char>) -> int {
    if s.len() > 0 && s[0] == '-' {
        -spec_digits_val(spec_int_literal_body(s))
    } else {
        spec_digits_val(spec_int_literal_body(s))
    }
}

/// What `str::parse::<i64>` returns on `s`: the value where `s` is an
/// optional sign followed by one or more digits and the value fits `i64`,
/// `None` otherwise.
pub open spec fn spec_parse_i64(s: Seq<char>) -> Option<i64> {
    let body = spec_int_literal_body(s);
    if body.len() > 0 && spec_all_digits(body) {
        let v = spec_int_literal_val(s);
        if i64::MIN <= v <= i64::MAX {
            Some(v as i64)
        } else {
            None
        }
    } else {
        None
    }
}

proof fn lemma_digits_val_nonneg(s: Seq<char>)
    requires
        spec_all_digits(s),
    ensures
        spec_digits_val(s) >= 0,
    decreases s.len(),
{
    if s.len() > 0 {
        lemma_digits_val_nonneg(s.drop_last());
    }
}

proof fn lemma_digits_val_prefix_bound(s: Seq<char>, k: int)
    requires
        spec_all_digits(s),
        0 <= k <= s.len(),
    ensures
        spec_digits_val(s.take(k)) <= spec_digits_val(s),
    decreases s.len() - k,
{
    if k < s.len() {
        lemma_digits_val_prefix_bound(s, k + 1);
        assert(s.take(k + 1).drop_last() =~= s.take(k));
        assert(s.take(k + 1).last() == s[k]);
        lemma_digits_val_nonneg(s.take(k));
        assert(spec_digits_val(s.take(k)) <= spec_digits_val(s.take(k + 1)));
    } else {
        assert(s.take(k) =~= s);
    }
}

/// Parses `s` as a signed 64-bit decimal integer, exactly as
/// `str::parse::<i64>` does on such literals.
pub fn parse_i64(s: &str) -> (r: Option<i64>)
    ensures
        r == spec_parse_i64(s@),
{
    let n = s.unicode_len();
    if n == 0 {
        return None;
    }
    let first = s.get_char(0);
    let (neg, start): (bool, usize) = if first == '-' {
        (true, 1)
    } else if first == '+' {
        (false, 1)
    } else {
        (false, 0)
    };
    proof {
        assert(spec_int_literal_body(s@) =~= s@.skip(start as int));
    }
    if n == start {
        return None;
    }
    let limit: u64 = if neg {
        9223372036854775808u64
    } else {
        9223372036854775807u64
    };
    let ghost body = s@.skip(start as int);
    let mut acc: u64 = 0;
    let mut i: usize = start;
    while i < n
        invariant
            start <= i <= n,
            n == s@.len(),
            body == s@.skip(start as int),
            body == spec_int_literal_body(s@),
            body.len() == n - start,
            spec_all_digits(body.take(i - start)),
            acc as int == spec_digits_val(body.take(i - start)),
        decreases n - i,
    {
        let c = s.get_char(i);
        if !(c >= '0' && c <= '9') {
            proof {
                assert(body[i - start] == c);
                assert(!spec_is_digit(body[i - start]));
                assert(!spec_all_digits(body));
                assert(spec_parse_i64(s@) == None::<i64>);
            }
            return None;
        }
        let d: u64 = (c as u32 as u64) - 48;
        let ghost acc0 = acc as int;
        proof {
            let pre = body.take(i + 1 - start);
            assert(pre.drop_last() =~= body.take(i - start));
            assert(pre.last() == body[i - start]);
            assert(body[i - start] == c);
            assert(spec_digit_val(c) == d as int);
            assert forall|k: int| 0 <= k < pre.len() implies spec_is_digit(#[trigger] pre[k]) by {
                if k < i - start {
                    assert(body.take(i - start)[k] == pre[k]);
                } else {
                    assert(pre[k] == c);
                }
            }
            assert(spec_digits_val(pre) == acc0 * 10 + d);
        }
        let next = match acc.checked_mul(10) {
            Some(t) => t.checked_add(d),
            None => None,
        };
        match next {
            Some(v) => {
                acc = v;
            },
            None => {
                // The prefix already exceeds any value an i64 can hold;
                // further digits only grow it.
                proof {
                    let pre = body.take(i + 1 - start);
                    assert(spec_digits_val(pre) > u64::MAX);
                    lemma_prefix_overflow(body, i + 1 - start);
                    if spec_all_digits(body) {
                        assert(spec_digits_val(body) > u64::MAX);
                        assert(spec_int_literal_val(s@) > i64::MAX
                            || spec_int_literal_val(s@) < i64::MIN);
                    }
                    assert(spec_parse_i64(s@) == None::<i64>);
                }
                return None;
            },
        }
        i = i + 1;
    }
    proof {
        assert(body.take(n - start) =~= body);
    }
    if acc > limit {
        proof {
            lemma_digits_val_nonneg(body);
        }
        return None;
    }
    if neg {
        let r: i64 = if acc == 9223372036854775808u64 {
            i64::MIN
        } else {
            -(acc as i64)
        };
        proof {
            assert(spec_int_literal_val(s@) == -(acc as int));
            assert(r as int == -(acc as int));
        }
        Some(r)
    } else {
        Some(acc as i64)
    }
}

proof fn lemma_prefix_overflow(body: Seq<char>, k: int)
    requires
        0 <= k <= body.len(),
        spec_all_digits(body.take(k)),
        spec_digits_val(body.take(k)) > u64::MAX,
    ensures
        spec_all_digits(body) ==> spec_digits_val(body) > u64::MAX,
{
    if spec_all_digits(body) {
        lemma_digits_val_prefix_bound(body, k);
    }
}

/// Equality of two text slices, character by character.
pub fn str_eq(a: &str, b: &str) -> (r: bool)
    ensures
        r == (a@ == b@),
{
    let na = a.unicode_len();
    let nb = b.unicode_len();
    if na != nb {
        return false;
    }
    let mut i: usize = 0;
    while i < na
        invariant
            0 <= i <= na,
            na == a@.len(),
            na == b@.len(),
            forall|j: int| 0 <= j < i ==> a@[j] == b@[j],
        decreases na - i,
    {
        if a.get_char(i) != b.get_char(i) {
            return false;
        }
        i = i + 1;
    }
    proof {
        assert(a@ =~= b@);
    }
    true
}

/// One step of the engine's FNV-1a style hash over 64-bit words.
pub open spec fn spec_fnv_step(h: u64, x: u64) -> u64 {
    (h ^ x).wrapping_mul(0x100000001b3u64)
}

/// The engine's FNV-1a style hash of a word sequence, folded from an
/// arbitrary starting state.
pub open spec fn spec_fnv_from(h0: u64, s: Seq<u64>) -> u64
    decreases s.len(),
{
    if s.len() == 0 {
        h0
    } else {
        spec_fnv_step(spec_fnv_from(h0, s.drop_last()), s.last())
    }
}

/// The engine's FNV-1a style hash of a word sequence.
pub open spec fn spec_fnv(s: Seq<u64>) -> u64 {
    spec_fnv_from(0xcbf29ce484222325u64, s)
}

/// The characters of `s` as 64-bit words.
pub open spec fn spec_chars_as_words(s: Seq<char>) -> Seq<u64> {
    s.map_values(|c: char| c as u64)
}

/// The engine's hash of a text value: FNV-1a over its characters, from
/// an arbitrary starting state.
pub fn fnv_str_from(h0: u64, s: &str) -> (r: u64)
    ensures
        r == spec_fnv_from(h0, spec_chars_as_words(s@)),
{
    let n = s.unicode_len();
    let mut h: u64 = h0;
    let mut i: usize = 0;
    while i < n
        invariant
            0 <= i <= n,
            n == s@.len(),
            h == spec_fnv_from(h0, spec_chars_as_words(s@).take(i as int)),
        decreases n - i,
    {
        let c = s.get_char(i);
        h = (h ^ (c as u64)).wrapping_mul(0x100000001b3u64);
        proof {
            let words = spec_chars_as_words(s@);
            assert(words.take(i + 1).drop_last() =~= words.take(i as int));
            assert(words.take(i + 1).last() == words[i as int]);
        }
        i = i + 1;
    }
    proof {
        assert(spec_chars_as_words(s@).take(n as int) =~= spec_chars_as_words(s@));
    }
    h
}

/// The engine's hash of a text value: FNV-1a over its characters.
pub fn fnv_str(s: &str) -> (r: u64)
    ensures
        r == spec_fnv(spec_chars_as_words(s@)),
{
    fnv_str_from(0xcbf29ce484222325u64, s)
}

} // verus!
