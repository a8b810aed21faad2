//! Decimal text: what counts as a numeral, what it denotes, and how integers
//! are read from and written to text.
//!
//! Text is modelled as a sequence of characters. A numeral is an optional
//! sign followed by at least one ASCII digit; nothing else is accepted, not
//! even surrounding white space.

use vstd::prelude::*;
use vstd::string::*;

verus! {

/// `c` is one of the ASCII digits `0` to `9`.
pub open spec fn is_digit(c: char) -> bool {
    '0' <= c <= '9'
}

/// The number a digit stands for.
pub open spec fn digit_value(c: char) -> nat {
    (c as int - '0' as int) as nat
}

/// The digit that stands for `d`, for `d` below ten.
pub open spec fn digit_char(d: nat) -> char {
    (d + '0' as nat) as char
}

/// Every character of `s` is a digit.
pub open spec fn all_digits(s: Seq<char>) -> bool {
    forall|i: int| 0 <= i < s.len() ==> is_digit(#[trigger] s[i])
}

/// The number that a run of digits denotes, most significant digit first.
/// Leading zeros do not change it, and the empty run denotes zero.
pub open spec fn digits_value(s: Seq<char>) -> nat
    decreases s.len(),
{
    if s.len() == 0 {
        0
    } else {
        10 * digits_value(s.drop_last()) + digit_value(s.last())
    }
}

/// The shortest run of digits that denotes `n`.
pub open spec fn numeral(n: nat) -> Seq<char>
    decreases n,
{
    if n < 10 {
        seq![digit_char(n)]
    } else {
        numeral(n / 10).push(digit_char(n % 10))
    }
}

/// The numeral of an integer: a minus sign before the digits of a negative one.
pub open spec fn signed_numeral(n: int) -> Seq<char> {
    if n < 0 {
        seq!['-'] + numeral((-n) as nat)
    } else {
        numeral(n as nat)
    }
}

/// What `s` denotes when read as an unsigned numeral: an optional `+`, then
/// one digit or more. `None` for every other text.
pub open spec fn unsigned_value(s: Seq<char>) -> Option<nat> {
    let digits = if s.len() > 0 && s[0] == '+' {
        s.subrange(1, s.len() as int)
    } else {
        s
    };
    if digits.len() > 0 && all_digits(digits) {
        Some(digits_value(digits))
    } else {
        None
    }
}

/// What `s` denotes when read as a signed numeral: an optional `+` or `-`,
/// then one digit or more. `None` for every other text.
pub open spec fn signed_value(s: Seq<char>) -> Option<int> {
    if s.len() > 0 && s[0] == '-' {
        let digits = s.subrange(1, s.len() as int);
        if digits.len() > 0 && all_digits(digits) {
            Some(-(digits_value(digits) as int))
        } else {
            None
        }
    } else {
        match unsigned_value(s) {
            Some(v) => Some(v as int),
            None => None,
        }
    }
}

/// The `u32` that `s` denotes, if it is an unsigned numeral within range.
pub open spec fn u32_of_text(s: Seq<char>) -> Option<u32> {
    match unsigned_value(s) {
        Some(v) => if v <= u32::MAX {
            Some(v as u32)
        } else {
            None
        },
        None => None,
    }
}

/// The `i64` that `s` denotes, if it is a signed numeral within range.
pub open spec fn i64_of_text(s: Seq<char>) -> Option<i64> {
    match signed_value(s) {
        Some(v) => if i64::MIN <= v <= i64::MAX {
            Some(v as i64)
        } else {
            None
        },
        None => None,
    }
}

/// A run of digits denotes at least what any of its prefixes denotes.
pub proof fn lemma_prefix_value_le(s: Seq<char>, k: int)
    requires
        0 <= k <= s.len(),
    ensures
        digits_value(s.take(k)) <= digits_value(s),
    decreases s.len(),
{
    if k == s.len() {
        assert(s.take(k) =~= s);
    } else {
        lemma_prefix_value_le(s.drop_last(), k);
        assert(s.drop_last().take(k) =~= s.take(k));
    }
}

/// Reads the digits of `text` from position `start` to its end, giving up as
/// soon as a character is no digit or the value passes `limit`.
fn read_digits(text: &str, start: usize, limit: u128) -> (r: Option<u128>)
    requires
        text.is_ascii(),
        start <= text@.len(),
        limit <= u64::MAX + 1,
    ensures
        r == ({
            let digits = text@.subrange(start as int, text@.len() as int);
            if digits.len() > 0 && all_digits(digits) && digits_value(digits) <= limit {
                Some(digits_value(digits) as u128)
            } else {
                None
            }
        }),
{
    broadcast use is_ascii_spec_bytes;

    let len = text.as_bytes().len();
    assert(len == text@.len());
    if start >= len {
        return None;
    }
    let ghost digits = text@.subrange(start as int, len as int);
    let mut value: u128 = 0;
    let mut i: usize = start;
    while i < len
        invariant
            text.is_ascii(),
            len == text@.len(),
            start <= i <= len,
            start < len,
            limit <= u64::MAX + 1,
            digits == text@.subrange(start as int, len as int),
            all_digits(digits.take(i - start)),
            value == digits_value(digits.take(i - start)),
            value <= limit,
        decreases len - i,
    {
        let b = text.get_ascii(i);
        let ghost c = text@[i as int];
        assert(c == digits[i - start]);
        assert('\0' <= c <= '\u{7f}');
        assert(c as int == b as int);
        if b < 48 || b > 57 {
            assert(!is_digit(digits[i - start]));
            return None;
        }
        let ghost longer = digits.take(i - start + 1);
        assert(longer.drop_last() =~= digits.take(i - start));
        assert(longer.last() == c);
        assert(all_digits(longer)) by {
            assert forall|j: int| 0 <= j < longer.len() implies is_digit(#[trigger] longer[j]) by {
                if j < i - start {
                    assert(longer[j] == digits.take(i - start)[j]);
                }
            }
        }
        value = value * 10 + (b - 48) as u128;
        assert(value == digits_value(longer));
        if value > limit {
            proof {
                lemma_prefix_value_le(digits, i - start + 1);
            }
            return None;
        }
        i = i + 1;
    }
    assert(digits.take(len - start) =~= digits);
    Some(value)
}

/// Reads an unsigned numeral: the `u32` that `text` denotes, or `None` where
/// it is no numeral or denotes more than a `u32` holds.
pub fn parse_u32(text: &str) -> (r: Option<u32>)
    ensures
        r == u32_of_text(text@),
{
    broadcast use is_ascii_spec_bytes;

    if !text.is_ascii() {
        proof {
            lemma_numerals_are_ascii(text@);
        }
        return None;
    }
    let len = text.as_bytes().len();
    let start: usize = if len > 0 && text.get_ascii(0) == 43 {
        1
    } else {
        0
    };
    assert(len > 0 ==> (text@[0] == '+' <==> text@[0] as int == 43));
    match read_digits(text, start, 0xffff_ffff) {
        Some(v) => {
            assert(text@.subrange(0, text@.len() as int) =~= text@);
            Some(v as u32)
        },
        None => {
            assert(text@.subrange(0, text@.len() as int) =~= text@);
            None
        },
    }
}

/// Reads a signed numeral: the `i64` that `text` denotes, or `None` where it
/// is no numeral or denotes a number outside the range of `i64`.
pub fn parse_i64(text: &str) -> (r: Option<i64>)
    ensures
        r == i64_of_text(text@),
{
    broadcast use is_ascii_spec_bytes;

    if !text.is_ascii() {
        proof {
            lemma_numerals_are_ascii(text@);
        }
        return None;
    }
    let len = text.as_bytes().len();
    assert(text@.subrange(0, text@.len() as int) =~= text@);
    if len > 0 && text.get_ascii(0) == 45 {
        assert(text@[0] == '-');
        match read_digits(text, 1, 0x8000_0000_0000_0000) {
            Some(v) => {
                if v == 0x8000_0000_0000_0000 {
                    Some(i64::MIN)
                } else {
                    Some(-(v as i64))
                }
            },
            None => None,
        }
    } else {
        let start: usize = if len > 0 && text.get_ascii(0) == 43 {
            1
        } else {
            0
        };
        assert(len > 0 ==> (text@[0] == '+' <==> text@[0] as int == 43));
        assert(len > 0 ==> text@[0] != '-');
        match read_digits(text, start, 0x7fff_ffff_ffff_ffff) {
            Some(v) => Some(v as i64),
            None => None,
        }
    }
}

/// A text with a character outside ASCII is no numeral, signed or unsigned.
pub proof fn lemma_numerals_are_ascii(s: Seq<char>)
    requires
        !vstd::utf8::is_ascii_chars(s),
    ensures
        unsigned_value(s) is None,
        signed_value(s) is None,
{
    let i = choose|i: int| 0 <= i < s.len() && !('\0' <= #[trigger] s[i] <= '\u{7f}');
    assert(!is_digit(s[i]));
    assert(s[i] != '+' && s[i] != '-');
    if i == 0 {
        assert(!all_digits(s));
    } else {
        let rest = s.subrange(1, s.len() as int);
        assert(rest[i - 1] == s[i]);
        assert(!all_digits(rest));
        assert(!all_digits(s));
    }
}

/// The one-character text of the digit that stands for `d`.
fn digit_text(d: u64) -> (r: &'static str)
    requires
        d < 10,
    ensures
        r@ == seq![digit_char(d as nat)],
{
    proof {
        reveal_strlit("0");
        reveal_strlit("1");
        reveal_strlit("2");
        reveal_strlit("3");
        reveal_strlit("4");
        reveal_strlit("5");
        reveal_strlit("6");
        reveal_strlit("7");
        reveal_strlit("8");
        reveal_strlit("9");
    }
    let r = if d == 0 {
        "0"
    } else if d == 1 {
        "1"
    } else if d == 2 {
        "2"
    } else if d == 3 {
        "3"
    } else if d == 4 {
        "4"
    } else if d == 5 {
        "5"
    } else if d == 6 {
        "6"
    } else if d == 7 {
        "7"
    } else if d == 8 {
        "8"
    } else {
        "9"
    };
    assert(r@ =~= seq![digit_char(d as nat)]);
    r
}

/// Writes `n` as its shortest decimal numeral.
pub fn format_u64(n: u64) -> (r: String)
    ensures
        r@ == numeral(n as nat),
    decreases n,
{
    if n < 10 {
        String::from_str(digit_text(n))
    } else {
        let mut text = format_u64(n / 10);
        text.append(digit_text(n % 10));
        assert(text@ =~= numeral((n / 10) as nat).push(digit_char((n % 10) as nat)));
        text
    }
}

/// Writes `n` as its shortest decimal numeral, with a minus sign where it is
/// negative.
pub fn format_i64(n: i64) -> (r: String)
    ensures
        r@ == signed_numeral(n as int),
{
    if n < 0 {
        let magnitude: u64 = if n == i64::MIN {
            0x8000_0000_0000_0000
        } else {
            (-n) as u64
        };
        proof {
            reveal_strlit("-");
        }
        let text = String::from_str("-").concat(format_u64(magnitude).as_str());
        assert(text@ =~= seq!['-'] + numeral((-n) as nat));
        text
    } else {
        format_u64(n as u64)
    }
}

/// The numeral of `n` is a non-empty run of digits that denotes `n`.
pub proof fn lemma_numeral_denotes(n: nat)
    ensures
        numeral(n).len() > 0,
        all_digits(numeral(n)),
        digits_value(numeral(n)) == n,
    decreases n,
{
    if n < 10 {
        let s = numeral(n);
        assert(s.drop_last() =~= Seq::<char>::empty());
        assert(digits_value(s.drop_last()) == 0);
    } else {
        lemma_numeral_denotes(n / 10);
        let head = numeral(n / 10);
        let s = numeral(n);
        assert(s.drop_last() =~= head);
        assert forall|i: int| 0 <= i < s.len() implies is_digit(#[trigger] s[i]) by {
            if i < head.len() {
                assert(s[i] == head[i]);
            }
        }
    }
}

/// Reading back the numeral of a natural number gives that number.
pub proof fn lemma_unsigned_round_trip(n: nat)
    ensures
        unsigned_value(numeral(n)) == Some(n),
{
    lemma_numeral_denotes(n);
    assert(is_digit(numeral(n)[0]));
}

/// Reading back the numeral of an integer gives that integer.
pub proof fn lemma_signed_round_trip(n: int)
    ensures
        signed_value(signed_numeral(n)) == Some(n),
{
    if n < 0 {
        let digits = numeral((-n) as nat);
        let s = signed_numeral(n);
        lemma_numeral_denotes((-n) as nat);
        assert(s.subrange(1, s.len() as int) =~= digits);
    } else {
        lemma_unsigned_round_trip(n as nat);
        assert(is_digit(numeral(n as nat)[0])) by {
            lemma_numeral_denotes(n as nat);
        }
    }
}

} // verus!
