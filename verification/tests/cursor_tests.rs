use solved_bot::cursor::{Cursor, Half};
use solved_bot::page::{encode_next, offers_more, paginate, visible_slice};

fn cursor(page: u32, half: Half) -> Cursor {
    Cursor { page, half }
}

#[test]
fn decode_empty_offset_is_start() {
    assert_eq!(Cursor::decode(""), cursor(1, Half::First));
}

#[test]
fn decode_non_numeric_offset_is_start() {
    assert_eq!(Cursor::decode("abc"), cursor(1, Half::First));
    assert_eq!(Cursor::decode("12x"), cursor(1, Half::First));
    assert_eq!(Cursor::decode(" 4"), cursor(1, Half::First));
    assert_eq!(Cursor::decode("4 "), cursor(1, Half::First));
    assert_eq!(Cursor::decode("4.0"), cursor(1, Half::First));
    assert_eq!(Cursor::decode("+"), cursor(1, Half::First));
    assert_eq!(Cursor::decode("１２"), cursor(1, Half::First));
}

#[test]
fn decode_negative_looking_offset_is_start() {
    assert_eq!(Cursor::decode("-1"), cursor(1, Half::First));
    assert_eq!(Cursor::decode("-4"), cursor(1, Half::First));
    assert_eq!(Cursor::decode("-0"), cursor(1, Half::First));
}

#[test]
fn decode_huge_offset_is_start() {
    assert_eq!(Cursor::decode("4294967296"), cursor(1, Half::First));
    assert_eq!(Cursor::decode("99999999999999999999999999"), cursor(1, Half::First));
}

#[test]
fn decode_zero_is_start() {
    assert_eq!(Cursor::decode("0"), cursor(1, Half::First));
    assert_eq!(Cursor::decode("000"), cursor(1, Half::First));
}

#[test]
fn decode_follows_the_formula() {
    assert_eq!(Cursor::decode("1"), cursor(1, Half::First));
    assert_eq!(Cursor::decode("2"), cursor(1, Half::Second));
    assert_eq!(Cursor::decode("3"), cursor(2, Half::First));
    assert_eq!(Cursor::decode("4"), cursor(2, Half::Second));
    assert_eq!(Cursor::decode("7"), cursor(4, Half::First));
    assert_eq!(Cursor::decode("200"), cursor(100, Half::Second));
    assert_eq!(Cursor::decode("+6"), cursor(3, Half::Second));
    assert_eq!(Cursor::decode("0006"), cursor(3, Half::Second));
}

#[test]
fn decode_largest_offset() {
    assert_eq!(Cursor::decode("4294967295"), cursor(2147483648, Half::First));
    assert_eq!(Cursor::decode("4294967294"), cursor(2147483647, Half::Second));
}

#[test]
fn from_offset_agrees_with_decode() {
    for n in 0u32..500 {
        assert_eq!(Cursor::from_offset(n), Cursor::decode(&n.to_string()));
    }
}

#[test]
fn next_offset_is_one_more_than_the_offset_read() {
    for n in 1u64..=2000 {
        let next = Cursor::decode(&n.to_string()).encode_next();
        assert_eq!(next, (n + 1).to_string());
    }
    assert_eq!(Cursor::decode("4294967295").encode_next(), "4294967296");
}

#[test]
fn next_offset_after_the_start_is_two() {
    assert_eq!(Cursor::decode("").encode_next(), "2");
    assert_eq!(Cursor::decode("0").encode_next(), "2");
    assert_eq!(Cursor::start().encode_next(), "2");
}

#[test]
fn next_offset_formula() {
    assert_eq!(cursor(7, Half::First).encode_next(), "14");
    assert_eq!(cursor(7, Half::Second).encode_next(), "15");
    assert_eq!(cursor(4294967295, Half::Second).encode_next(), "8589934591");
}

#[test]
fn full_page_first_half() {
    let records: Vec<u32> = (0..100).collect();
    let page = paginate(cursor(3, Half::First), &records);
    assert_eq!(page.shown.len(), 50);
    assert_eq!(page.shown, &records[..50]);
    let next = page.next_offset.expect("a further page is offered");
    assert_eq!(next, "6");
    assert_eq!(Cursor::decode(&next), cursor(3, Half::Second));
}

#[test]
fn full_page_second_half() {
    let records: Vec<u32> = (0..100).collect();
    let page = paginate(cursor(3, Half::Second), &records);
    assert_eq!(page.shown.len(), 50);
    assert_eq!(page.shown, &records[50..100]);
    assert_eq!(page.shown[0], 50);
    assert_eq!(page.shown[49], 99);
    let next = page.next_offset.expect("a further page is offered");
    assert_eq!(next, "7");
    assert_eq!(Cursor::decode(&next), cursor(4, Half::First));
}

#[test]
fn short_page_first_half() {
    let records: Vec<u32> = (0..30).collect();
    let page = paginate(cursor(1, Half::First), &records);
    assert_eq!(page.shown.len(), 30);
    assert_eq!(page.shown, &records[..]);
    assert_eq!(page.next_offset, None);
}

#[test]
fn page_of_exactly_fifty_overshoots_by_one_empty_page() {
    let records: Vec<u32> = (0..50).collect();
    let first = paginate(cursor(2, Half::First), &records);
    assert_eq!(first.shown.len(), 50);
    assert_eq!(first.next_offset, Some("4".to_string()));
    let second = paginate(Cursor::decode("4"), &records);
    assert_eq!(second.shown.len(), 0);
    assert_eq!(second.next_offset, None);
}

#[test]
fn second_half_of_a_page_that_is_not_full() {
    let records: Vec<u32> = (0..51).collect();
    let page = paginate(cursor(1, Half::Second), &records);
    assert_eq!(page.shown, &[50]);
    assert_eq!(page.next_offset, None);
    let records: Vec<u32> = (0..99).collect();
    let page = paginate(cursor(1, Half::Second), &records);
    assert_eq!(page.shown.len(), 49);
    assert_eq!(page.next_offset, None);
}

#[test]
fn empty_page() {
    let records: Vec<u32> = Vec::new();
    for half in [Half::First, Half::Second] {
        let page = paginate(cursor(1, half), &records);
        assert_eq!(page.shown.len(), 0);
        assert_eq!(page.next_offset, None);
    }
}

#[test]
fn forty_nine_records_offer_nothing_more() {
    let records: Vec<u32> = (0..49).collect();
    assert_eq!(visible_slice(&records, Half::First).len(), 49);
    assert!(!offers_more(Half::First, 49));
    assert_eq!(encode_next(1, Half::First, 49), None);
}

#[test]
fn oversized_page_shows_no_more_than_the_first_hundred() {
    let records: Vec<u32> = (0..130).collect();
    assert_eq!(visible_slice(&records, Half::First), &records[..50]);
    assert_eq!(visible_slice(&records, Half::Second), &records[50..100]);
    assert!(offers_more(Half::Second, 130));
}

#[test]
fn offers_more_thresholds() {
    assert!(!offers_more(Half::First, 0));
    assert!(!offers_more(Half::First, 49));
    assert!(offers_more(Half::First, 50));
    assert!(offers_more(Half::First, 100));
    assert!(!offers_more(Half::Second, 50));
    assert!(!offers_more(Half::Second, 99));
    assert!(offers_more(Half::Second, 100));
}

#[test]
fn encode_next_values() {
    assert_eq!(encode_next(1, Half::First, 100), Some("2".to_string()));
    assert_eq!(encode_next(1, Half::Second, 100), Some("3".to_string()));
    assert_eq!(encode_next(12, Half::First, 50), Some("24".to_string()));
    assert_eq!(encode_next(12, Half::Second, 99), None);
    assert_eq!(encode_next(12, Half::First, 30), None);
}

#[test]
fn halves_cover_the_page_once() {
    for len in [0usize, 1, 49, 50, 51, 99, 100] {
        let records: Vec<usize> = (0..len).collect();
        let mut seen: Vec<usize> = Vec::new();
        seen.extend_from_slice(visible_slice(&records, Half::First));
        seen.extend_from_slice(visible_slice(&records, Half::Second));
        assert_eq!(seen, records);
    }
}

#[test]
fn walking_a_search_visits_consecutive_offsets() {
    let upstream = |page: u32| -> Vec<u32> {
        if page <= 3 {
            (0..100).collect()
        } else if page == 4 {
            (0..20).collect()
        } else {
            Vec::new()
        }
    };
    let mut offset = String::new();
    let mut offsets: Vec<String> = Vec::new();
    let mut shown = 0usize;
    loop {
        let at = Cursor::decode(&offset);
        let records = upstream(at.page);
        let page = paginate(at, &records);
        shown += page.shown.len();
        match page.next_offset {
            Some(next) => {
                offsets.push(next.clone());
                offset = next;
            }
            None => break,
        }
    }
    assert_eq!(offsets, vec!["2", "3", "4", "5", "6", "7"]);
    assert_eq!(shown, 320);
}
