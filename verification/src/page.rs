//! Splitting one upstream page into client-visible pages.
//!
//! An upstream page holds up to [`UPSTREAM_PAGE`] records and an answer shows
//! up to [`VISIBLE_PAGE`] of them: the first half of the upstream page or the
//! second. Whether a further page is offered is decided from the length of the
//! upstream page alone, without looking ahead. An upstream page of exactly
//! fifty records therefore offers a second half that turns out empty: one
//! extra round trip, accepted for the sake of never fetching twice.

use crate::cursor::{cursor_of_text, lemma_next_offset_decodes_to_successor, Cursor, Half};
use crate::decimal::numeral;
use vstd::prelude::*;
use vstd::slice::slice_subrange;

verus! {

/// The number of records in a full upstream page.
pub const UPSTREAM_PAGE: usize = 100;

/// The most records that one answer shows.
pub const VISIBLE_PAGE: usize = 50;

/// Where the visible records of a half begin in an upstream page of `len`
/// records.
pub open spec fn visible_start(half: Half, len: nat) -> nat {
    match half {
        Half::First => 0,
        Half::Second => if len > 50 {
            50
        } else {
            len
        },
    }
}

/// Where the visible records of a half end in an upstream page of `len`
/// records.
pub open spec fn visible_end(half: Half, len: nat) -> nat {
    match half {
        Half::First => if len > 50 {
            50
        } else {
            len
        },
        Half::Second => if len > 100 {
            100
        } else {
            len
        },
    }
}

/// The records of an upstream page that a half shows: the first fifty, or the
/// fifty-first to the hundredth, as far as the page holds them.
pub open spec fn visible<T>(records: Seq<T>, half: Half) -> Seq<T> {
    records.subrange(
        visible_start(half, records.len()) as int,
        visible_end(half, records.len()) as int,
    )
}

/// Whether a page is offered after the given half of an upstream page of `len`
/// records: after a first half where the upstream page holds at least fifty,
/// after a second half where it is full.
pub open spec fn has_more(half: Half, len: nat) -> bool {
    match half {
        Half::First => len >= 50,
        Half::Second => len >= 100,
    }
}

/// The text of the offset offered after showing `half` of upstream page
/// `page`, which held `len` records; `None` at the end of the results.
pub open spec fn next_offset_text(page: u32, half: Half, len: nat) -> Option<Seq<char>> {
    if has_more(half, len) {
        Some(numeral((Cursor { page, half }).next_offset()))
    } else {
        None
    }
}

/// Whether a page is offered after the given half of an upstream page that
/// held `result_len` records.
pub fn offers_more(half: Half, result_len: usize) -> (more: bool)
    ensures
        more == has_more(half, result_len as nat),
{
    match half {
        Half::First => result_len >= VISIBLE_PAGE,
        Half::Second => result_len >= UPSTREAM_PAGE,
    }
}

/// The records of an upstream page that the given half shows.
pub fn visible_slice<'a, T>(records: &'a [T], half: Half) -> (shown: &'a [T])
    ensures
        shown@ == visible(records@, half),
        shown@.len() <= VISIBLE_PAGE,
{
    let len = records.len();
    match half {
        Half::First => {
            let end = if len > VISIBLE_PAGE {
                VISIBLE_PAGE
            } else {
                len
            };
            slice_subrange(records, 0, end)
        },
        Half::Second => {
            let start = if len > VISIBLE_PAGE {
                VISIBLE_PAGE
            } else {
                len
            };
            let end = if len > UPSTREAM_PAGE {
                UPSTREAM_PAGE
            } else {
                len
            };
            slice_subrange(records, start, end)
        },
    }
}

/// The offset to hand out after showing `half` of upstream page `page`, which
/// held `result_len` records: `2 * page` after a first half and
/// `2 * page + 1` after a second, as decimal text, or `None` where no further
/// page is offered.
pub fn encode_next(page: u32, half: Half, result_len: usize) -> (next: Option<String>)
    ensures
        next is Some <==> has_more(half, result_len as nat),
        match next {
            Some(text) => Some(text@) == next_offset_text(page, half, result_len as nat),
            None => next_offset_text(page, half, result_len as nat) is None,
        },
{
    if offers_more(half, result_len) {
        Some((Cursor { page, half }).encode_next())
    } else {
        None
    }
}

/// One client-visible page: the records to show and the offset of the page
/// after it, if one is offered.
pub struct VisiblePage<'a, T> {
    pub shown: &'a [T],
    pub next_offset: Option<String>,
}

impl<'a, T> VisiblePage<'a, T> {
    /// The text of the next offset, if there is one.
    pub open spec fn next_text(self) -> Option<Seq<char>> {
        match self.next_offset {
            Some(text) => Some(text@),
            None => None,
        }
    }
}

/// Cuts the client-visible page at `cursor` out of the upstream page that was
/// fetched for it.
pub fn paginate<'a, T>(cursor: Cursor, records: &'a [T]) -> (page: VisiblePage<'a, T>)
    ensures
        page.shown@ == visible(records@, cursor.half),
        page.shown@.len() <= VISIBLE_PAGE,
        page.next_text() == next_offset_text(cursor.page, cursor.half, records@.len()),
{
    VisiblePage {
        shown: visible_slice(records, cursor.half),
        next_offset: encode_next(cursor.page, cursor.half, records.len()),
    }
}

/// No answer shows more than fifty records.
pub proof fn lemma_visible_is_bounded<T>(records: Seq<T>, half: Half)
    ensures
        visible(records, half).len() <= 50,
{
}

/// The two halves show the first hundred records of the upstream page, each
/// once and in order.
pub proof fn lemma_halves_cover_page<T>(records: Seq<T>)
    ensures
        visible(records, Half::First) + visible(records, Half::Second) == records.take(
            if records.len() > 100 {
                100
            } else {
                records.len() as int
            },
        ),
{
    assert(visible(records, Half::First) + visible(records, Half::Second) =~= records.take(
        if records.len() > 100 {
            100
        } else {
            records.len() as int
        },
    ));
}

/// A full first half is always followed by an offer of the second half, and a
/// second half that is offered holds a record exactly when the upstream page
/// held more than fifty.
pub proof fn lemma_second_half_after_first<T>(records: Seq<T>)
    ensures
        visible(records, Half::First).len() == 50 ==> has_more(Half::First, records.len()),
        has_more(Half::First, records.len()) ==> (visible(records, Half::Second).len() > 0
            <==> records.len() > 50),
        has_more(Half::Second, records.len()) ==> visible(records, Half::Second).len() == 50,
{
}

/// The first half of a full upstream page shows its first fifty records and
/// offers a next page, whose offset stands for the second half of the same
/// upstream page.
pub proof fn lemma_full_page_first_half<T>(records: Seq<T>, page: u32)
    requires
        records.len() == 100,
        1 <= page,
        2 * page <= u32::MAX,
    ensures
        visible(records, Half::First) == records.subrange(0, 50),
        next_offset_text(page, Half::First, records.len()) matches Some(next) && cursor_of_text(
            next,
        ) == (Cursor { page, half: Half::Second }),
{
    lemma_next_offset_decodes_to_successor(Cursor { page, half: Half::First });
}

/// The second half of a full upstream page shows its last fifty records and
/// offers a next page, whose offset stands for the first half of the next
/// upstream page.
pub proof fn lemma_full_page_second_half<T>(records: Seq<T>, page: u32)
    requires
        records.len() == 100,
        1 <= page,
        2 * page + 1 <= u32::MAX,
    ensures
        visible(records, Half::Second) == records.subrange(50, 100),
        next_offset_text(page, Half::Second, records.len()) matches Some(next) && cursor_of_text(
            next,
        ) == (Cursor { page: (page + 1) as u32, half: Half::First }),
{
    lemma_next_offset_decodes_to_successor(Cursor { page, half: Half::Second });
}

/// The first half of an upstream page of fewer than fifty records shows all
/// of them and offers no next page.
pub proof fn lemma_short_page_ends<T>(records: Seq<T>, page: u32)
    requires
        records.len() < 50,
    ensures
        visible(records, Half::First) == records,
        next_offset_text(page, Half::First, records.len()) is None,
{
    assert(visible(records, Half::First) =~= records);
}

} // verus!
