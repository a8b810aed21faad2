//! The pagination cursor.
//!
//! The upstream search service hands out pages of a hundred records, while an
//! inline answer may carry fifty. Every upstream page is therefore shown as
//! two client-visible pages, and the cursor that a client sends back has to
//! name both the upstream page and the half of it that comes next. On the wire
//! the two are packed into one non-negative integer written as decimal text;
//! inside the library they are a [`Cursor`].
//!
//! Offset `n >= 1` stands for upstream page `(n + 1) / 2`, first half where
//! `n` is odd and second half where it is even. The offset of the page after
//! `(page, half)` is `2 * page` for the first half and `2 * page + 1` for the
//! second, which is always one more than the offset of `(page, half)` itself.
//! Offset 0 and every text that is no offset stand for the start.

use crate::decimal::{format_u64, lemma_unsigned_round_trip, numeral, parse_u32, u32_of_text};
use vstd::prelude::*;

verus! {

/// Which half of an upstream page a client-visible page shows.
#[derive(Clone, Copy, Debug, PartialEq, Eq, Structural)]
pub enum Half {
    First,
    Second,
}

impl Half {
    /// 0 for the first half, 1 for the second.
    pub open spec fn index(self) -> nat {
        match self {
            Half::First => 0,
            Half::Second => 1,
        }
    }
}

/// A position in a paginated search: the upstream page (counted from 1) and
/// the half of it to show.
#[derive(Clone, Copy, Debug, PartialEq, Eq, Structural)]
pub struct Cursor {
    pub page: u32,
    pub half: Half,
}

/// The position that offset `n` stands for.
pub open spec fn cursor_at(n: nat) -> Cursor {
    if n == 0 {
        Cursor { page: 1, half: Half::First }
    } else {
        Cursor {
            page: ((n + 1) / 2) as u32,
            half: if (n + 1) % 2 == 1 {
                Half::Second
            } else {
                Half::First
            },
        }
    }
}

/// The position that the text of an offset stands for: the start unless the
/// text is an unsigned numeral that a `u32` holds.
pub open spec fn cursor_of_text(text: Seq<char>) -> Cursor {
    match u32_of_text(text) {
        Some(n) => cursor_at(n as nat),
        None => Cursor { page: 1, half: Half::First },
    }
}

impl Cursor {
    /// Pages are counted from 1.
    pub open spec fn wf(self) -> bool {
        self.page >= 1
    }

    /// The offset that stands for this position.
    pub open spec fn offset(self) -> nat
        recommends
            self.wf(),
    {
        (2 * self.page + self.half.index() - 1) as nat
    }

    /// The offset that stands for the position after this one.
    pub open spec fn next_offset(self) -> nat {
        2 * (self.page as nat) + self.half.index()
    }

    /// The position after this one: the second half of the same upstream
    /// page, or the first half of the next.
    pub open spec fn successor(self) -> Cursor
        recommends
            self.half == Half::Second ==> self.page < u32::MAX,
    {
        match self.half {
            Half::First => Cursor { page: self.page, half: Half::Second },
            Half::Second => Cursor { page: (self.page + 1) as u32, half: Half::First },
        }
    }

    /// The first half of the first upstream page.
    pub fn start() -> (c: Cursor)
        ensures
            c == (Cursor { page: 1, half: Half::First }),
            c.wf(),
    {
        Cursor { page: 1, half: Half::First }
    }

    /// The position that offset `n` stands for.
    pub fn from_offset(n: u32) -> (c: Cursor)
        ensures
            c == cursor_at(n as nat),
            c.wf(),
    {
        if n == 0 {
            Cursor::start()
        } else {
            let m: u64 = n as u64 + 1;
            Cursor {
                page: (m / 2) as u32,
                half: if m % 2 == 1 {
                    Half::Second
                } else {
                    Half::First
                },
            }
        }
    }

    /// Reads the offset that a client sent. Never fails: an empty text, one
    /// that is no unsigned numeral, one that denotes more than a `u32` holds,
    /// and the numeral of zero all give the start.
    pub fn decode(offset: &str) -> (c: Cursor)
        ensures
            c == cursor_of_text(offset@),
            c.wf(),
    {
        match parse_u32(offset) {
            Some(n) => Cursor::from_offset(n),
            None => Cursor::start(),
        }
    }

    /// The offset to hand to the client for the page after this one.
    pub fn encode_next(&self) -> (text: String)
        ensures
            text@ == numeral(self.next_offset()),
    {
        let half: u64 = match self.half {
            Half::First => 0,
            Half::Second => 1,
        };
        format_u64(2 * (self.page as u64) + half)
    }
}

/// Each offset from 1 on is the offset of the position it stands for, so
/// positions and offsets from 1 on correspond one to one.
pub proof fn lemma_offset_of_cursor_at(n: nat)
    requires
        1 <= n <= u32::MAX,
    ensures
        cursor_at(n).wf(),
        cursor_at(n).offset() == n,
{
}

/// Each position with a page of at least 1 is what its offset stands for.
pub proof fn lemma_cursor_at_offset(c: Cursor)
    requires
        c.wf(),
        c.offset() <= u32::MAX,
    ensures
        cursor_at(c.offset()) == c,
{
}

/// The offset handed out for the next page is one more than the offset that
/// was read: the offsets of one search run through 2, 3, 4, ... without a gap
/// and never point backward.
pub proof fn lemma_next_offset_is_successor(n: nat)
    requires
        1 <= n <= u32::MAX,
    ensures
        cursor_at(n).next_offset() == n + 1,
        cursor_of_text(numeral(n)).next_offset() == n + 1,
{
    lemma_unsigned_round_trip(n);
}

/// Reading the text of the offset `n` gives the position that `n` stands for.
pub proof fn lemma_decode_numeral(n: nat)
    requires
        n <= u32::MAX,
    ensures
        cursor_of_text(numeral(n)) == cursor_at(n),
{
    lemma_unsigned_round_trip(n);
}

/// Reading back the offset that was handed out for the next page gives the
/// position after the current one: the second half of the same upstream page
/// after a first half, the first half of the next upstream page after a second.
pub proof fn lemma_next_offset_decodes_to_successor(c: Cursor)
    requires
        c.wf(),
        c.next_offset() <= u32::MAX,
    ensures
        cursor_of_text(numeral(c.next_offset())) == c.successor(),
        c.half == Half::First ==> c.successor() == (Cursor { page: c.page, half: Half::Second }),
        c.half == Half::Second ==> c.successor() == (Cursor {
            page: (c.page + 1) as u32,
            half: Half::First,
        }),
{
    lemma_unsigned_round_trip(c.next_offset());
}

} // verus!
