//! Reading commands and numbers out of the text of a message.
//!
//! A command is a line of words: the first is its label, the others its
//! arguments. Words are the longest runs of characters without white space.
//! A message may also be mined for the numbers it mentions, which are the
//! longest runs of digits in it.

use crate::decimal::{
    all_digits, digits_value, is_digit, parse_u32, u32_of_text, unsigned_value,
};
use crate::text::{push_char, texts_of};
use vstd::prelude::*;

verus! {

/// `c` is ASCII white space: a space, a tab, a line feed, a form feed or a
/// carriage return.
pub open spec fn is_space(c: char) -> bool {
    c == ' ' || c == '\t' || c == '\n' || c == '\x0c' || c == '\r'
}

/// A kind of character that runs are made of.
#[derive(Clone, Copy, Debug, PartialEq, Eq, Structural)]
pub enum CharClass {
    /// Every character but white space.
    Word,
    /// The digits `0` to `9`.
    Digit,
}

impl CharClass {
    /// Whether `c` is of this kind.
    pub open spec fn holds(self, c: char) -> bool {
        match self {
            CharClass::Word => !is_space(c),
            CharClass::Digit => is_digit(c),
        }
    }

    /// Whether `c` is of this kind.
    pub fn test(self, c: char) -> (member: bool)
        ensures
            member == self.holds(c),
    {
        match self {
            CharClass::Word => !(c == ' ' || c == '\t' || c == '\n' || c == '\x0c' || c == '\r'),
            CharClass::Digit => '0' <= c && c <= '9',
        }
    }
}

/// The longest runs of characters of one kind in `s`, from left to right.
pub open spec fn runs(s: Seq<char>, class: CharClass) -> Seq<Seq<char>>
    decreases s.len(),
{
    if s.len() == 0 {
        Seq::empty()
    } else {
        let before = runs(s.drop_last(), class);
        if !class.holds(s.last()) {
            before
        } else if s.len() >= 2 && class.holds(s[s.len() - 2]) {
            before.drop_last().push(before.last().push(s.last()))
        } else {
            before.push(seq![s.last()])
        }
    }
}

/// Every run holds a character, and only characters of its kind. A text that
/// ends in a character of the kind has a run.
pub proof fn lemma_runs_are_of_class(s: Seq<char>, class: CharClass)
    ensures
        forall|i: int|
            0 <= i < runs(s, class).len() ==> (#[trigger] runs(s, class)[i]).len() > 0,
        forall|i: int, j: int|
            0 <= i < runs(s, class).len() && 0 <= j < runs(s, class)[i].len() ==> class.holds(
                #[trigger] runs(s, class)[i][j],
            ),
        s.len() > 0 && class.holds(s.last()) ==> runs(s, class).len() > 0,
    decreases s.len(),
{
    if s.len() > 0 {
        lemma_runs_are_of_class(s.drop_last(), class);
        let before = runs(s.drop_last(), class);
        let after = runs(s, class);
        if class.holds(s.last()) && s.len() >= 2 && class.holds(s[s.len() - 2]) {
            assert(s.drop_last().last() == s[s.len() - 2]);
            assert forall|i: int, j: int|
                0 <= i < after.len() && 0 <= j < after[i].len() implies class.holds(
                #[trigger] after[i][j],
            ) by {
                if i < after.len() - 1 {
                    assert(after[i] == before[i]);
                } else if j < before.last().len() {
                    assert(after[i][j] == before.last()[j]);
                }
            }
            assert forall|i: int| 0 <= i < after.len() implies (#[trigger] after[i]).len() > 0 by {
                if i < after.len() - 1 {
                    assert(after[i] == before[i]);
                }
            }
        } else if class.holds(s.last()) {
            assert forall|i: int, j: int|
                0 <= i < after.len() && 0 <= j < after[i].len() implies class.holds(
                #[trigger] after[i][j],
            ) by {
                if i < before.len() {
                    assert(after[i] == before[i]);
                }
            }
            assert forall|i: int| 0 <= i < after.len() implies (#[trigger] after[i]).len() > 0 by {
                if i < before.len() {
                    assert(after[i] == before[i]);
                }
            }
        }
    }
}

/// The characters of one kind in `s`, in their order.
pub open spec fn members(s: Seq<char>, class: CharClass) -> Seq<char>
    decreases s.len(),
{
    if s.len() == 0 {
        Seq::empty()
    } else if class.holds(s.last()) {
        members(s.drop_last(), class).push(s.last())
    } else {
        members(s.drop_last(), class)
    }
}

/// The texts of a list written one after the other.
pub open spec fn joined(parts: Seq<Seq<char>>) -> Seq<char>
    decreases parts.len(),
{
    if parts.len() == 0 {
        Seq::empty()
    } else {
        joined(parts.drop_last()) + parts.last()
    }
}

/// The runs of a text hold its characters of the kind, all of them and in
/// their order: cutting a text into runs drops the other characters and
/// nothing else.
pub proof fn lemma_runs_keep_members(s: Seq<char>, class: CharClass)
    ensures
        joined(runs(s, class)) == members(s, class),
    decreases s.len(),
{
    if s.len() > 0 {
        lemma_runs_keep_members(s.drop_last(), class);
        lemma_runs_are_of_class(s.drop_last(), class);
        let before = runs(s.drop_last(), class);
        let c = s.last();
        if class.holds(c) && s.len() >= 2 && class.holds(s[s.len() - 2]) {
            assert(s.drop_last().last() == s[s.len() - 2]);
            let after = before.drop_last().push(before.last().push(c));
            assert(after.drop_last() =~= before.drop_last());
            assert(joined(before.drop_last()) + before.last().push(c) =~= (joined(
                before.drop_last(),
            ) + before.last()).push(c));
        } else if class.holds(c) {
            let after = before.push(seq![c]);
            assert(after.drop_last() =~= before);
            assert(joined(before) + seq![c] =~= joined(before).push(c));
        }
    }
}

/// Cuts `text` into its longest runs of characters of one kind.
pub fn split_runs(text: &str, class: CharClass) -> (out: Vec<String>)
    ensures
        texts_of(out@) == runs(text@, class),
{
    let mut out: Vec<String> = Vec::new();
    let mut current = String::new();
    let mut open = false;
    assert(texts_of(out@) =~= Seq::<Seq<char>>::empty());
    for c in it: text.chars()
        invariant
            it.seq() == text@,
            open ==> current@.len() > 0 && it.index() > 0 && class.holds(text@[it.index() - 1])
                && runs(text@.take(it.index() as int), class) == texts_of(out@).push(current@),
            !open ==> current@.len() == 0 && (it.index() > 0 ==> !class.holds(
                text@[it.index() - 1],
            )) && runs(text@.take(it.index() as int), class) == texts_of(out@),
    {
        let ghost before = text@.take(it.index() as int);
        let ghost longer = text@.take(it.index() + 1);
        let ghost done = texts_of(out@);
        let ghost word = current@;
        assert(longer.drop_last() =~= before);
        assert(longer.last() == c);
        assert(it.index() > 0 ==> longer[longer.len() - 2] == text@[it.index() - 1]);
        if class.test(c) {
            push_char(&mut current, c);
            proof {
                if open {
                    assert(done.push(word).drop_last() =~= done);
                } else {
                    assert(word.push(c) =~= seq![c]);
                }
            }
            open = true;
        } else if open {
            out.push(current);
            assert(texts_of(out@) =~= done.push(word));
            current = String::new();
            open = false;
        }
    }
    assert(text@.take(text@.len() as int) =~= text@);
    if open {
        let ghost done = texts_of(out@);
        let ghost word = current@;
        out.push(current);
        assert(texts_of(out@) =~= done.push(word));
    }
    out
}

/// A command: its label and its arguments.
#[derive(Debug)]
pub struct Command {
    pub label: String,
    pub args: Vec<String>,
}

/// The label of the command in `text`: its first word, or the empty text
/// where it has no word.
pub open spec fn label_of(text: Seq<char>) -> Seq<char> {
    if runs(text, CharClass::Word).len() > 0 {
        runs(text, CharClass::Word)[0]
    } else {
        Seq::empty()
    }
}

/// The arguments of the command in `text`: its words after the first.
pub open spec fn args_of(text: Seq<char>) -> Seq<Seq<char>> {
    if runs(text, CharClass::Word).len() > 0 {
        runs(text, CharClass::Word).skip(1)
    } else {
        Seq::empty()
    }
}

impl Command {
    /// Reads the command in `text`.
    pub fn new(text: &str) -> (command: Command)
        ensures
            command.label@ == label_of(text@),
            texts_of(command.args@) == args_of(text@),
    {
        let mut words = split_runs(text, CharClass::Word);
        if words.len() == 0 {
            let command = Command { label: String::new(), args: words };
            assert(texts_of(command.args@) =~= Seq::<Seq<char>>::empty());
            command
        } else {
            let ghost all = words@;
            let label = words.remove(0);
            assert(texts_of(words@) =~= texts_of(all).skip(1));
            assert(texts_of(all)[0] == label@);
            Command { label, args: words }
        }
    }
}

/// The number that a run of digits stands for where a `u32` holds it, and the
/// largest `u32` where it does not.
pub open spec fn saturated(digits: Seq<char>) -> u32 {
    if digits_value(digits) <= u32::MAX {
        digits_value(digits) as u32
    } else {
        u32::MAX
    }
}

/// The numbers mentioned in `text`: its longest runs of digits, each as the
/// number it stands for, in their order.
pub open spec fn numbers_in(text: Seq<char>) -> Seq<u32> {
    runs(text, CharClass::Digit).map_values(|digits: Seq<char>| saturated(digits))
}

/// Finds the numbers mentioned in `text`.
pub fn mentioned_numbers(text: &str) -> (numbers: Vec<u32>)
    ensures
        numbers@ == numbers_in(text@),
{
    let found = split_runs(text, CharClass::Digit);
    let ghost wanted = runs(text@, CharClass::Digit);
    proof {
        lemma_runs_are_of_class(text@, CharClass::Digit);
    }
    let mut numbers: Vec<u32> = Vec::new();
    let mut i: usize = 0;
    while i < found.len()
        invariant
            0 <= i <= found@.len(),
            texts_of(found@) == wanted,
            wanted == runs(text@, CharClass::Digit),
            forall|k: int| 0 <= k < wanted.len() ==> (#[trigger] wanted[k]).len() > 0,
            forall|k: int, j: int|
                0 <= k < wanted.len() && 0 <= j < wanted[k].len() ==> is_digit(
                    #[trigger] wanted[k][j],
                ),
            numbers@.len() == i,
            forall|k: int| 0 <= k < i ==> numbers@[k] == saturated(wanted[k]),
        decreases found@.len() - i,
    {
        let ghost digits = wanted[i as int];
        assert(digits == found@[i as int]@);
        assert(digits.len() > 0);
        assert(all_digits(digits)) by {
            assert forall|j: int| 0 <= j < digits.len() implies is_digit(#[trigger] digits[j]) by {
                assert(is_digit(wanted[i as int][j]));
            }
        }
        assert(is_digit(digits[0]));
        assert(unsigned_value(digits) == Some(digits_value(digits)));
        let number = match parse_u32(found[i].as_str()) {
            Some(n) => n,
            None => u32::MAX,
        };
        numbers.push(number);
        i = i + 1;
    }
    assert(numbers@ =~= numbers_in(text@));
    numbers
}

/// The numbers that a list of arguments stands for, where each of them is the
/// numeral of a `u32`; `None` where one of them is not.
pub open spec fn numbers_of(args: Seq<Seq<char>>) -> Option<Seq<u32>>
    decreases args.len(),
{
    if args.len() == 0 {
        Some(Seq::empty())
    } else {
        match (numbers_of(args.drop_last()), u32_of_text(args.last())) {
            (Some(numbers), Some(n)) => Some(numbers.push(n)),
            _ => None,
        }
    }
}

/// Where the first `k` of a list of arguments do not all stand for numbers,
/// neither does the whole list.
proof fn lemma_numbers_of_prefix(args: Seq<Seq<char>>, k: int)
    requires
        0 <= k <= args.len(),
        numbers_of(args.take(k)) is None,
    ensures
        numbers_of(args) is None,
    decreases args.len() - k,
{
    if k < args.len() {
        assert(args.take(k + 1).drop_last() =~= args.take(k));
        lemma_numbers_of_prefix(args, k + 1);
    } else {
        assert(args.take(k) =~= args);
    }
}

/// Reads every argument as the numeral of a `u32`.
pub fn parse_numbers(args: &Vec<String>) -> (numbers: Option<Vec<u32>>)
    ensures
        match numbers {
            Some(list) => numbers_of(texts_of(args@)) == Some(list@),
            None => numbers_of(texts_of(args@)) is None,
        },
{
    let ghost texts = texts_of(args@);
    let mut list: Vec<u32> = Vec::new();
    let mut i: usize = 0;
    assert(texts.take(0) =~= Seq::<Seq<char>>::empty());
    while i < args.len()
        invariant
            0 <= i <= args@.len(),
            texts == texts_of(args@),
            numbers_of(texts.take(i as int)) == Some(list@),
        decreases args@.len() - i,
    {
        assert(texts.take(i + 1).drop_last() =~= texts.take(i as int));
        assert(texts.take(i + 1).last() == args@[i as int]@);
        match parse_u32(args[i].as_str()) {
            Some(n) => {
                list.push(n);
            },
            None => {
                proof {
                    lemma_numbers_of_prefix(texts, i + 1);
                }
                return None;
            },
        }
        i = i + 1;
    }
    assert(texts.take(args@.len() as int) =~= texts);
    Some(list)
}

} // verus!
