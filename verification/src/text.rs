//! Small helpers for text, which contracts model as a sequence of characters.

use vstd::prelude::*;
use vstd::string::*;
use vstd::utf8::encode_utf8_decode_utf8;

verus! {

/// The characters of an optional text.
pub open spec fn option_text(text: Option<String>) -> Option<Seq<char>> {
    match text {
        Some(t) => Some(t@),
        None => None,
    }
}

/// The characters of each text of a list.
pub open spec fn texts_of(texts: Seq<String>) -> Seq<Seq<char>> {
    texts.map_values(|t: String| t@)
}

/// Calls `String::push`. Trusted: the character is added at the end of the
/// text and nothing else changes.
#[verifier::external_body]
pub(crate) fn push_char(text: &mut String, c: char)
    ensures
        final(text)@ == old(text)@.push(c),
{
    text.push(c)
}

/// Whether two texts hold the same characters.
pub fn text_eq(a: &str, b: &str) -> (same: bool)
    ensures
        same == (a@ == b@),
{
    let x = a.as_bytes();
    let y = b.as_bytes();
    proof {
        encode_utf8_decode_utf8(a@);
        encode_utf8_decode_utf8(b@);
    }
    if x.len() != y.len() {
        return false;
    }
    let mut i: usize = 0;
    while i < x.len()
        invariant
            x@.len() == y@.len(),
            0 <= i <= x@.len(),
            forall|j: int| 0 <= j < i ==> x@[j] == y@[j],
            x@ == a.spec_bytes(),
            y@ == b.spec_bytes(),
        decreases x@.len() - i,
    {
        if x[i] != y[i] {
            return false;
        }
        i = i + 1;
    }
    assert(x@ =~= y@);
    true
}

/// The characters of a text, one by one.
pub fn chars_of(text: &str) -> (chars: Vec<char>)
    ensures
        chars@ == text@,
{
    let mut chars: Vec<char> = Vec::new();
    for c in it: text.chars()
        invariant
            it.seq() == text@,
            chars@ == text@.take(it.index() as int),
    {
        chars.push(c);
        assert(text@.take(it.index() + 1) =~= text@.take(it.index() as int).push(c));
    }
    assert(text@.take(text@.len() as int) =~= text@);
    chars
}

/// `s` with every occurrence of `from` replaced by `to`, reading from the
/// left: an occurrence begins only after the end of the one before it.
pub open spec fn replaced(s: Seq<char>, from: Seq<char>, to: Seq<char>) -> Seq<char>
    decreases s.len(),
{
    if from.len() == 0 || s.len() < from.len() {
        s
    } else if s.take(from.len() as int) == from {
        to + replaced(s.skip(from.len() as int), from, to)
    } else {
        seq![s[0]] + replaced(s.skip(1), from, to)
    }
}

/// Whether `from` stands in `chars` at position `at`.
fn occurs_at(chars: &Vec<char>, at: usize, from: &Vec<char>) -> (found: bool)
    requires
        at <= chars@.len(),
    ensures
        found == (chars@.len() - at >= from@.len() && chars@.skip(at as int).take(
            from@.len() as int,
        ) == from@),
{
    if chars.len() - at < from.len() {
        return false;
    }
    let ghost window = chars@.skip(at as int).take(from@.len() as int);
    let mut j: usize = 0;
    while j < from.len()
        invariant
            at + from@.len() <= chars.len(),
            0 <= j <= from@.len(),
            window == chars@.skip(at as int).take(from@.len() as int),
            forall|k: int| 0 <= k < j ==> window[k] == from@[k],
        decreases from@.len() - j,
    {
        assert(window[j as int] == chars@[at + j]);
        if chars[at + j] != from[j] {
            return false;
        }
        j = j + 1;
    }
    assert(window =~= from@);
    true
}

/// Replaces every occurrence of `from` in `text` by `to`, reading from the
/// left.
pub fn replace_all(text: &str, from: &str, to: &str) -> (out: String)
    requires
        from@.len() > 0,
    ensures
        out@ == replaced(text@, from@, to@),
{
    let chars = chars_of(text);
    let pattern = chars_of(from);
    let mut out = String::new();
    let mut i: usize = 0;
    assert(chars@.skip(0) =~= chars@);
    while i < chars.len()
        invariant
            0 <= i <= chars@.len(),
            chars@ == text@,
            pattern@ == from@,
            from@.len() > 0,
            out@ + replaced(chars@.skip(i as int), from@, to@) == replaced(text@, from@, to@),
        decreases chars@.len() - i,
    {
        let ghost rest = chars@.skip(i as int);
        let ghost done = out@;
        if occurs_at(&chars, i, &pattern) {
            out.append(to);
            assert(rest.skip(from@.len() as int) =~= chars@.skip(i + from@.len()));
            assert(done + (to@ + replaced(rest.skip(from@.len() as int), from@, to@)) =~= (done
                + to@) + replaced(rest.skip(from@.len() as int), from@, to@));
            i = i + pattern.len();
        } else {
            push_char(&mut out, chars[i]);
            assert(rest.skip(1) =~= chars@.skip(i + 1));
            proof {
                if rest.len() < from@.len() {
                    assert(replaced(rest.skip(1), from@, to@) == rest.skip(1));
                    assert(rest =~= seq![rest[0]] + rest.skip(1));
                }
            }
            assert(done + (seq![rest[0]] + replaced(rest.skip(1), from@, to@)) =~= done.push(
                rest[0],
            ) + replaced(rest.skip(1), from@, to@));
            i = i + 1;
        }
    }
    assert(replaced(chars@.skip(chars@.len() as int), from@, to@) =~= Seq::<char>::empty());
    assert(out@ + Seq::<char>::empty() =~= out@);
    out
}

} // verus!
