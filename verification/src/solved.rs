//! Requests to the upstream service: the addresses to ask, and what counts as
//! an answer.
//!
//! A query or a handle becomes part of an address only after escaping: every
//! byte of its UTF-8 form that an address cannot carry as it is, is written
//! as a percent sign and two hexadecimal digits.

use crate::decimal::{format_u64, numeral};
use crate::text::push_char;
use vstd::prelude::*;
use vstd::string::*;
use vstd::utf8::encode_utf8;

verus! {

/// The status of a response that carries an answer.
pub const STATUS_OK: u16 = 200;

/// `b` is a byte that an address carries as it is: an ASCII letter or digit,
/// or one of `; , / ? : @ & = + $ - _ . ! ~ * ' ( ) #`.
pub open spec fn is_address_byte(b: u8) -> bool {
    ||| 0x41 <= b <= 0x5a
    ||| 0x61 <= b <= 0x7a
    ||| 0x30 <= b <= 0x39
    ||| b == 0x3b
    ||| b == 0x2c
    ||| b == 0x2f
    ||| b == 0x3f
    ||| b == 0x3a
    ||| b == 0x40
    ||| b == 0x26
    ||| b == 0x3d
    ||| b == 0x2b
    ||| b == 0x24
    ||| b == 0x2d
    ||| b == 0x5f
    ||| b == 0x2e
    ||| b == 0x21
    ||| b == 0x7e
    ||| b == 0x2a
    ||| b == 0x27
    ||| b == 0x28
    ||| b == 0x29
    ||| b == 0x23
}

/// The hexadecimal digit for `n` below sixteen, in upper case.
pub open spec fn hex_digit(n: int) -> char {
    if n < 10 {
        (n + 0x30) as char
    } else {
        (n - 10 + 0x41) as char
    }
}

/// The escaped form of a sequence of bytes.
pub open spec fn address_escaped(bytes: Seq<u8>) -> Seq<char>
    decreases bytes.len(),
{
    if bytes.len() == 0 {
        Seq::empty()
    } else {
        let b = bytes.last();
        if is_address_byte(b) {
            address_escaped(bytes.drop_last()).push(b as char)
        } else {
            address_escaped(bytes.drop_last()).push('%').push(hex_digit(b as int / 16)).push(
                hex_digit(b as int % 16),
            )
        }
    }
}

/// The escaped form of a text: that of its UTF-8 bytes.
pub open spec fn uri_encoded(text: Seq<char>) -> Seq<char> {
    address_escaped(encode_utf8(text))
}

fn address_byte(b: u8) -> (keep: bool)
    ensures
        keep == is_address_byte(b),
{
    (0x41 <= b && b <= 0x5a) || (0x61 <= b && b <= 0x7a) || (0x30 <= b && b <= 0x39) || b == 0x3b
        || b == 0x2c || b == 0x2f || b == 0x3f || b == 0x3a || b == 0x40 || b == 0x26 || b == 0x3d
        || b == 0x2b || b == 0x24 || b == 0x2d || b == 0x5f || b == 0x2e || b == 0x21 || b == 0x7e
        || b == 0x2a || b == 0x27 || b == 0x28 || b == 0x29 || b == 0x23
}

fn hex_char(n: u8) -> (c: char)
    requires
        n < 16,
    ensures
        c == hex_digit(n as int),
{
    if n < 10 {
        (n + 0x30) as char
    } else {
        (n - 10 + 0x41) as char
    }
}

/// Escapes a text for use in an address.
pub fn encode_uri(text: &str) -> (out: String)
    ensures
        out@ == uri_encoded(text@),
{
    let bytes = text.as_bytes();
    let mut out = String::new();
    let mut i: usize = 0;
    assert(bytes@.take(0) =~= Seq::<u8>::empty());
    while i < bytes.len()
        invariant
            0 <= i <= bytes@.len(),
            bytes@ == encode_utf8(text@),
            out@ == address_escaped(bytes@.take(i as int)),
        decreases bytes@.len() - i,
    {
        let b = bytes[i];
        assert(bytes@.take(i + 1).drop_last() =~= bytes@.take(i as int));
        assert(bytes@.take(i + 1).last() == b);
        if address_byte(b) {
            push_char(&mut out, b as char);
        } else {
            push_char(&mut out, '%');
            push_char(&mut out, hex_char(b / 16));
            push_char(&mut out, hex_char(b % 16));
        }
        i = i + 1;
    }
    assert(bytes@.take(bytes@.len() as int) =~= bytes@);
    out
}

/// The address of page `page` of the search for `query`.
pub open spec fn search_address(query: Seq<char>, page: u32) -> Seq<char> {
    "https://solved.ac/api/v3/search/problem?query="@ + uri_encoded(query) + "&page="@ + numeral(
        page as nat,
    )
}

/// The numerals of a list of numbers with a comma between one and the next.
pub open spec fn comma_list(ids: Seq<u32>) -> Seq<char>
    decreases ids.len(),
{
    if ids.len() == 0 {
        Seq::empty()
    } else if ids.len() == 1 {
        numeral(ids.last() as nat)
    } else {
        comma_list(ids.drop_last()) + ","@ + numeral(ids.last() as nat)
    }
}

/// The address that looks up the problems with the numbers `ids`.
pub open spec fn lookup_address(ids: Seq<u32>) -> Seq<char> {
    "https://solved.ac/api/v3/problem/lookup?problemIds="@ + comma_list(ids)
}

/// The address that shows the user `handle`.
pub open spec fn user_address(handle: Seq<char>) -> Seq<char> {
    "https://solved.ac/api/v3/user/show?handle="@ + uri_encoded(handle)
}

/// Writes the address of page `page` of the search for `query`.
pub fn search_problem_url(query: &str, page: u32) -> (url: String)
    ensures
        url@ == search_address(query@, page),
{
    let mut url = String::from_str("https://solved.ac/api/v3/search/problem?query=");
    url.append(encode_uri(query).as_str());
    url.append("&page=");
    url.append(format_u64(page as u64).as_str());
    url
}

/// Writes the address that looks up the problems with the numbers
/// `id_list`, of which there is at least one.
pub fn problem_lookup_url(id_list: &[u32]) -> (url: String)
    requires
        id_list@.len() > 0,
    ensures
        url@ == lookup_address(id_list@),
{
    let mut ids = String::new();
    let mut i: usize = 0;
    assert(id_list@.take(0) =~= Seq::<u32>::empty());
    while i < id_list.len()
        invariant
            0 <= i <= id_list@.len(),
            ids@ == comma_list(id_list@.take(i as int)),
        decreases id_list@.len() - i,
    {
        assert(id_list@.take(i + 1).drop_last() =~= id_list@.take(i as int));
        assert(id_list@.take(i + 1).last() == id_list@[i as int]);
        if i > 0 {
            ids.append(",");
        } else {
            assert(ids@ + numeral(id_list@[0] as nat) =~= numeral(id_list@[0] as nat));
        }
        ids.append(format_u64(id_list[i] as u64).as_str());
        i = i + 1;
    }
    assert(id_list@.take(id_list@.len() as int) =~= id_list@);
    let mut url = String::from_str("https://solved.ac/api/v3/problem/lookup?problemIds=");
    url.append(ids.as_str());
    url
}

/// Writes the address that shows the user `handle`.
pub fn user_show_url(handle: &str) -> (url: String)
    ensures
        url@ == user_address(handle@),
{
    let mut url = String::from_str("https://solved.ac/api/v3/user/show?handle=");
    url.append(encode_uri(handle).as_str());
    url
}

/// Whether a response with this status carries an answer. Every other
/// response stands for no result, and is no error.
pub fn carries_answer(status: u16) -> (answer: bool)
    ensures
        answer == (status == STATUS_OK),
{
    status == STATUS_OK
}

} // verus!
