use vstd::prelude::*;
use vstd::string::{StrSliceExecFns, StringExecFns};

verus! {

/// A white space character, one with Unicode's `White_Space` property as
/// `char::is_whitespace` has them.
pub open spec fn is_white(c: char) -> bool {
    c == ' ' || ('\t' <= c && c <= '\r') || c == '\u{85}' || c == '\u{a0}' || c == '\u{1680}' || (
    '\u{2000}' <= c && c <= '\u{200a}') || c == '\u{2028}' || c == '\u{2029}' || c == '\u{202f}'
        || c == '\u{205f}' || c == '\u{3000}'
}

/// Whether `c` is a white space character.
pub fn is_white_char(c: char) -> (r: bool)
    ensures
        r == is_white(c),
{
    c == ' ' || ('\t' <= c && c <= '\r') || c == '\u{85}' || c == '\u{a0}' || c == '\u{1680}' || (
    '\u{2000}' <= c && c <= '\u{200a}') || c == '\u{2028}' || c == '\u{2029}' || c == '\u{202f}'
        || c == '\u{205f}' || c == '\u{3000}'
}

/// The first position at or after `i` that holds no white space; the length
/// where there is none.
pub open spec fn next_non_white(s: Seq<char>, i: int) -> int
    decreases s.len() - i,
{
    if i >= s.len() {
        s.len() as int
    } else if !is_white(s[i]) {
        i
    } else {
        next_non_white(s, i + 1)
    }
}

/// The first position at or after `i` that holds white space; the length
/// where there is none.
pub open spec fn next_white(s: Seq<char>, i: int) -> int
    decreases s.len() - i,
{
    if i >= s.len() {
        s.len() as int
    } else if is_white(s[i]) {
        i
    } else {
        next_white(s, i + 1)
    }
}

/// Where the first word of `s` at or after `i` starts and ends: the words
/// of a text are its longest runs without white space, as
/// `str::split_whitespace` gives them. `None` where only white space follows.
pub open spec fn word_from(s: Seq<char>, i: int) -> Option<(int, int)> {
    let a = next_non_white(s, i);
    if a >= s.len() {
        None
    } else {
        Some((a, next_white(s, a)))
    }
}

/// Where the first word of `s` at or after `from` starts and ends.
pub fn find_word(s: &str, from: usize) -> (r: Option<(usize, usize)>)
    requires
        from <= s@.len(),
    ensures
        match word_from(s@, from as int) {
            Some(p) => r matches Some(q) && q.0 == p.0 && q.1 == p.1 && p.0 < p.1 <= s@.len(),
            None => r is None,
        },
{
    let n = s.unicode_len();
    let mut i = from;
    while i < n && is_white_char(s.get_char(i))
        invariant
            from <= i <= n,
            n == s@.len(),
            next_non_white(s@, from as int) == next_non_white(s@, i as int),
        decreases n - i,
    {
        i += 1;
    }
    if i >= n {
        return None;
    }
    let a = i;
    let mut j = a + 1;
    assert(next_white(s@, a as int) == next_white(s@, j as int));
    while j < n && !is_white_char(s.get_char(j))
        invariant
            a < j <= n,
            n == s@.len(),
            next_white(s@, a as int) == next_white(s@, j as int),
        decreases n - j,
    {
        j += 1;
    }
    Some((a, j))
}

/// Appends `t` to `s`.
pub fn push_text(s: &mut String, t: &str)
    ensures
        final(s)@ == old(s)@ + t@,
{
    s.append(t);
}

/// An ASCII decimal digit.
pub open spec fn is_digit(c: u8) -> bool {
    48 <= c <= 57
}

/// The ASCII lower case of a byte; other bytes stay as they are.
pub open spec fn ascii_lower(c: u8) -> u8 {
    if 65 <= c <= 90 {
        (c + 32) as u8
    } else {
        c
    }
}

/// Every byte is an ASCII decimal digit.
pub open spec fn all_digits(d: Seq<u8>) -> bool {
    forall|i: int| 0 <= i < d.len() ==> is_digit(#[trigger] d[i])
}

/// The number that a string of decimal digits denotes.
pub open spec fn digits_value(d: Seq<u8>) -> int
    decreases d.len(),
{
    if d.len() == 0 {
        0
    } else {
        digits_value(d.drop_last()) * 10 + (d.last() - 48)
    }
}

/// The `i16` that a string denotes in the form std's integer parsing reads:
/// an optional `+` or `-`, then one or more decimal digits, the value in range.
pub open spec fn parsed_i16(b: Seq<u8>) -> Option<i16> {
    let signed = b.len() > 0 && (b[0] == 45 || b[0] == 43);
    let d = if signed {
        b.drop_first()
    } else {
        b
    };
    let v = if signed && b[0] == 45 {
        -digits_value(d)
    } else {
        digits_value(d)
    };
    if d.len() == 0 || !all_digits(d) || v < -32768 || v > 32767 {
        None
    } else {
        Some(v as i16)
    }
}

/// Digit strings denote non-negative numbers that grow as digits are added.
pub proof fn lemma_digits_value_prefix(d: Seq<u8>, k: int)
    requires
        all_digits(d),
        0 <= k <= d.len(),
    ensures
        0 <= digits_value(d.subrange(0, k)) <= digits_value(d),
    decreases d.len(),
{
    if d.len() > 0 {
        let t = d.drop_last();
        assert(all_digits(t)) by {
            assert forall|i: int| 0 <= i < t.len() implies is_digit(#[trigger] t[i]) by {
                assert(t[i] == d[i]);
            }
        }
        assert(is_digit(d[d.len() - 1]));
        if k == d.len() {
            assert(d.subrange(0, k) == d);
            lemma_digits_value_prefix(t, t.len() as int);
            assert(t.subrange(0, t.len() as int) == t);
        } else {
            lemma_digits_value_prefix(t, k);
            assert(t.subrange(0, k) == d.subrange(0, k));
            lemma_digits_value_prefix(t, t.len() as int);
            assert(t.subrange(0, t.len() as int) == t);
        }
    }
}

/// Reads an `i16` from bytes as std's integer parsing does.
pub fn parse_i16(b: &[u8]) -> (r: Option<i16>)
    ensures
        r == parsed_i16(b@),
{
    let n = b.len();
    let mut i: usize = 0;
    let mut neg = false;
    if n > 0 && (b[0] == 45 || b[0] == 43) {
        neg = b[0] == 45;
        i = 1;
    }
    let start = i;
    let ghost d = b@.subrange(start as int, n as int);
    proof {
        if start == 1 {
            assert(d == b@.drop_first());
            assert(b@[0] == 45 || b@[0] == 43);
        } else {
            assert(d == b@);
        }
    }
    if i == n {
        return None;
    }
    let mut acc: i32 = 0;
    while i < n
        invariant
            start <= i <= n,
            n == b@.len(),
            d == b@.subrange(start as int, n as int),
            d == (if b@.len() > 0 && (b@[0] == 45 || b@[0] == 43) {
                b@.drop_first()
            } else {
                b@
            }),
            d.len() > 0,
            neg == (b@.len() > 0 && b@[0] == 45),
            all_digits(b@.subrange(start as int, i as int)),
            acc == digits_value(b@.subrange(start as int, i as int)),
            0 <= acc <= 32768,
        decreases n - i,
    {
        let c = b[i];
        if !(48 <= c && c <= 57) {
            proof {
                assert(d[i - start] == c);
                assert(!is_digit(d[i - start]));
            }
            return None;
        }
        let ghost pre = b@.subrange(start as int, i as int);
        let ghost next = b@.subrange(start as int, i + 1);
        proof {
            assert(next.drop_last() == pre);
            assert(next.last() == c);
            assert forall|j: int| 0 <= j < next.len() implies is_digit(#[trigger] next[j]) by {
                if j < pre.len() {
                    assert(next[j] == pre[j]);
                }
            }
        }
        acc = acc * 10 + (c - 48) as i32;
        i += 1;
        if acc > 32768 {
            proof {
                if all_digits(d) {
                    lemma_digits_value_prefix(d, i - start);
                    assert(d.subrange(0, i - start) == next);
                }
            }
            return None;
        }
    }
    proof {
        assert(b@.subrange(start as int, i as int) == d);
    }
    if neg {
        Some((-acc) as i16)
    } else if acc <= 32767 {
        Some(acc as i16)
    } else {
        None
    }
}

} // verus!
