//! Reading a wind speed out of a forecast's free-text field such as `"12 mph"`.
use vstd::prelude::*;

verus! {

/// Reported when the wind text cannot be read: an unknown wind counts as the
/// strongest possible one, so it never passes as calm.
pub const WIND_UNKNOWN: u8 = 255;

pub open spec fn is_digit(c: char) -> bool {
    '0' <= c && c <= '9'
}

pub open spec fn all_digits(s: Seq<char>) -> bool {
    forall|i: int| 0 <= i < s.len() ==> is_digit(#[trigger] s[i])
}

/// The number that a string of decimal digits stands for.
pub open spec fn digits_value(s: Seq<char>) -> int
    decreases s.len(),
{
    if s.len() == 0 {
        0
    } else {
        10 * digits_value(s.drop_last()) + (s.last() as int - '0' as int)
    }
}

/// The decimal part of an unsigned number's text: a leading `+` is allowed.
pub open spec fn unsigned_digits(s: Seq<char>) -> Seq<char> {
    if s.len() > 0 && s[0] == '+' {
        s.drop_first()
    } else {
        s
    }
}

/// What std reads as a `u8` from text: an optional `+`, then one or more
/// decimal digits whose value is at most 255.
pub open spec fn u8_of_text(s: Seq<char>) -> Option<u8> {
    let d = unsigned_digits(s);
    if d.len() > 0 && all_digits(d) && digits_value(d) <= 255 {
        Some(digits_value(d) as u8)
    } else {
        None
    }
}

/// Unicode whitespace (the `White_Space` property), as `char::is_whitespace`
/// and `str::split_whitespace` understand it.
pub open spec fn is_space(c: char) -> bool {
    ('\u{9}' <= c && c <= '\u{d}') || c == ' ' || c == '\u{85}' || c == '\u{a0}'
        || c == '\u{1680}' || ('\u{2000}' <= c && c <= '\u{200a}') || c == '\u{2028}'
        || c == '\u{2029}' || c == '\u{202f}' || c == '\u{205f}' || c == '\u{3000}'
}

/// The characters up to the first whitespace (all of them when there is none).
pub open spec fn word_prefix(s: Seq<char>) -> Seq<char>
    decreases s.len(),
{
    if s.len() == 0 || is_space(s[0]) {
        Seq::empty()
    } else {
        seq![s[0]] + word_prefix(s.drop_first())
    }
}

/// The first whitespace-delimited token: leading whitespace is skipped, and
/// the token runs up to the next whitespace. Empty when the text holds only
/// whitespace.
pub open spec fn first_token(s: Seq<char>) -> Seq<char>
    decreases s.len(),
{
    if s.len() == 0 {
        Seq::empty()
    } else if is_space(s[0]) {
        first_token(s.drop_first())
    } else {
        word_prefix(s)
    }
}

/// The wind speed in mph that a forecast's wind text gives: the first token
/// read as a `u8`, or `WIND_UNKNOWN` when it is not one. A range such as
/// `"10 to 15 mph"` gives its first number.
pub open spec fn wind_speed_of(s: Seq<char>) -> u8 {
    match u8_of_text(first_token(s)) {
        Some(v) => v,
        None => WIND_UNKNOWN,
    }
}

proof fn lemma_word_prefix(s: Seq<char>, k: int)
    requires
        0 <= k <= s.len(),
        forall|j: int| 0 <= j < k ==> !is_space(s[j]),
        k == s.len() || is_space(s[k]),
    ensures
        word_prefix(s) == s.take(k),
    decreases k,
{
    if k > 0 {
        let t = s.drop_first();
        assert forall|j: int| 0 <= j < k - 1 implies !is_space(t[j]) by {
            assert(!is_space(s[j + 1]));
        }
        lemma_word_prefix(t, k - 1);
    }
    assert(word_prefix(s) =~= s.take(k));
}

proof fn lemma_first_token(s: Seq<char>, a: int, k: int)
    requires
        0 <= a <= k <= s.len(),
        forall|j: int| 0 <= j < a ==> is_space(s[j]),
        a == s.len() || !is_space(s[a]),
        forall|j: int| a <= j < k ==> !is_space(s[j]),
        k == s.len() || is_space(s[k]),
    ensures
        first_token(s) == s.subrange(a, k),
    decreases a,
{
    if a > 0 {
        let t = s.drop_first();
        assert forall|j: int| 0 <= j < a - 1 implies is_space(t[j]) by {
            assert(is_space(s[j + 1]));
        }
        assert forall|j: int| a - 1 <= j < k - 1 implies !is_space(t[j]) by {
            assert(!is_space(s[j + 1]));
        }
        lemma_first_token(t, a - 1, k - 1);
        assert(t.subrange(a - 1, k - 1) =~= s.subrange(a, k));
    } else if s.len() == 0 {
        assert(first_token(s) =~= s.subrange(a, k));
    } else {
        lemma_word_prefix(s, k);
        assert(s.take(k) =~= s.subrange(a, k));
    }
}

/// Whether `c` is Unicode whitespace.
fn is_space_char(c: char) -> (r: bool)
    ensures
        r == is_space(c),
{
    ('\u{9}' <= c && c <= '\u{d}') || c == ' ' || c == '\u{85}' || c == '\u{a0}'
        || c == '\u{1680}' || ('\u{2000}' <= c && c <= '\u{200a}') || c == '\u{2028}'
        || c == '\u{2029}' || c == '\u{202f}' || c == '\u{205f}' || c == '\u{3000}'
}

/// Reads the digits `s[from..to]` as a `u8`: `None` when one is not a digit,
/// when there are none, or when the value exceeds 255.
fn parse_digits(s: &str, from: usize, to: usize) -> (r: Option<u8>)
    requires
        from <= to <= s@.len(),
    ensures
        ({
            let d = s@.subrange(from as int, to as int);
            r == (if d.len() > 0 && all_digits(d) && digits_value(d) <= 255 {
                Some(digits_value(d) as u8)
            } else {
                None
            })
        }),
{
    if from == to {
        return None;
    }
    let mut acc: u32 = 0;
    let mut i: usize = from;
    while i < to
        invariant
            from <= i <= to <= s@.len(),
            all_digits(s@.subrange(from as int, i as int)),
            acc <= 256,
            acc < 256 ==> acc == digits_value(s@.subrange(from as int, i as int)),
            acc == 256 ==> digits_value(s@.subrange(from as int, i as int)) >= 256,
        decreases to - i,
    {
        let c = s.get_char(i);
        let ghost p = s@.subrange(from as int, i as int);
        let ghost q = s@.subrange(from as int, i + 1);
        assert(q.drop_last() =~= p);
        if c < '0' || c > '9' {
            assert(!is_digit(s@.subrange(from as int, to as int)[i - from]));
            return None;
        }
        let d: u32 = (c as u32) - ('0' as u32);
        if acc < 256 {
            acc = 10 * acc + d;
            if acc > 256 {
                acc = 256;
            }
        }
        i = i + 1;
        assert(all_digits(q)) by {
            assert forall|j: int| 0 <= j < q.len() implies is_digit(#[trigger] q[j]) by {
                if j < q.len() - 1 {
                    assert(q[j] == p[j]);
                }
            }
        }
    }
    if acc <= 255 {
        Some(acc as u8)
    } else {
        None
    }
}

/// The wind speed in mph of a forecast's wind text such as `"12 mph"`: the
/// first whitespace-delimited token read as a number, or `WIND_UNKNOWN` when
/// that is no number from 0 to 255 (empty text, `"calm"`, `"300 mph"`).
pub fn parse_wind_speed(s: &str) -> (r: u8)
    ensures
        r == wind_speed_of(s@),
{
    let n = s.unicode_len();
    let mut a: usize = 0;
    while a < n
        invariant
            a <= n == s@.len(),
            forall|j: int| 0 <= j < a ==> is_space(s@[j]),
        ensures
            a <= n == s@.len(),
            forall|j: int| 0 <= j < a ==> is_space(s@[j]),
            a == n || !is_space(s@[a as int]),
        decreases n - a,
    {
        if !is_space_char(s.get_char(a)) {
            break;
        }
        a = a + 1;
    }
    let mut k: usize = a;
    while k < n
        invariant
            a <= k <= n == s@.len(),
            forall|j: int| a <= j < k ==> !is_space(s@[j]),
        ensures
            a <= k <= n == s@.len(),
            forall|j: int| a <= j < k ==> !is_space(s@[j]),
            k == n || is_space(s@[k as int]),
        decreases n - k,
    {
        if is_space_char(s.get_char(k)) {
            break;
        }
        k = k + 1;
    }
    proof {
        lemma_first_token(s@, a as int, k as int);
    }
    let from: usize = if k > a && s.get_char(a) == '+' { a + 1 } else { a };
    proof {
        assert(unsigned_digits(s@.subrange(a as int, k as int)) =~= s@.subrange(
            from as int,
            k as int,
        ));
    }
    match parse_digits(s, from, k) {
        Some(v) => v,
        None => WIND_UNKNOWN,
    }
}

} // verus!
