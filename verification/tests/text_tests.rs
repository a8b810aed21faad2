use solved_bot::command::{mentioned_numbers, parse_numbers, split_runs, CharClass, Command};
use solved_bot::text::{chars_of, replace_all, text_eq};

fn strings(words: &[&str]) -> Vec<String> {
    words.iter().map(|w| w.to_string()).collect()
}

#[test]
fn text_equality() {
    assert!(text_eq("", ""));
    assert!(text_eq("/problem", "/problem"));
    assert!(!text_eq("/problem", "/problems"));
    assert!(!text_eq("/problem", "/Problem"));
    assert!(!text_eq("a", ""));
    assert!(text_eq("문제", "문제"));
    assert!(!text_eq("문제", "문재"));
}

#[test]
fn characters_of_a_text() {
    assert_eq!(chars_of(""), Vec::<char>::new());
    assert_eq!(chars_of("a가😀"), vec!['a', '가', '😀']);
}

#[test]
fn replace_all_occurrences() {
    assert_eq!(replace_all("profile/x", "profile/", "profile/360x360/"), "profile/360x360/x");
    assert_eq!(replace_all("aaa", "aa", "b"), "ba");
    assert_eq!(replace_all("aaaa", "aa", "b"), "bb");
    assert_eq!(replace_all("abc", "x", "y"), "abc");
    assert_eq!(replace_all("", "x", "y"), "");
    assert_eq!(replace_all("xyx", "x", ""), "y");
    assert_eq!(replace_all("가나다가", "가", "라마"), "라마나다라마");
    assert_eq!(replace_all("ab", "abc", "z"), "ab");
}

#[test]
fn replace_all_agrees_with_std() {
    for (text, from, to) in [
        ("a/profile/b/profile/c", "profile/", "profile/360x360/"),
        ("ababab", "aba", "-"),
        ("profile", "profile/", "!"),
        ("xxxxx", "xx", "xxx"),
    ] {
        assert_eq!(replace_all(text, from, to), text.replace(from, to));
    }
}

#[test]
fn words_of_a_text() {
    assert_eq!(split_runs("", CharClass::Word), Vec::<String>::new());
    assert_eq!(split_runs("   ", CharClass::Word), Vec::<String>::new());
    assert_eq!(split_runs("one", CharClass::Word), strings(&["one"]));
    assert_eq!(
        split_runs("  /problem  1000\t1001\n1002 ", CharClass::Word),
        strings(&["/problem", "1000", "1001", "1002"])
    );
    assert_eq!(split_runs("가 나", CharClass::Word), strings(&["가", "나"]));
}

#[test]
fn digit_runs_of_a_text() {
    assert_eq!(split_runs("", CharClass::Digit), Vec::<String>::new());
    assert_eq!(split_runs("no numbers", CharClass::Digit), Vec::<String>::new());
    assert_eq!(
        split_runs("1000번, 1001번 그리고 007", CharClass::Digit),
        strings(&["1000", "1001", "007"])
    );
    assert_eq!(split_runs("12a34", CharClass::Digit), strings(&["12", "34"]));
    assert_eq!(split_runs("١٢٣ 5", CharClass::Digit), strings(&["5"]));
}

#[test]
fn command_label_and_arguments() {
    let command = Command::new("/problem 1000 1001");
    assert_eq!(command.label, "/problem");
    assert_eq!(command.args, strings(&["1000", "1001"]));
    let command = Command::new("/user");
    assert_eq!(command.label, "/user");
    assert!(command.args.is_empty());
    let command = Command::new("   ");
    assert_eq!(command.label, "");
    assert!(command.args.is_empty());
    let command = Command::new("");
    assert_eq!(command.label, "");
    let command = Command::new("\n/user\tkiwiyou  extra\r\n");
    assert_eq!(command.label, "/user");
    assert_eq!(command.args, strings(&["kiwiyou", "extra"]));
}

#[test]
fn numbers_mentioned_in_a_text() {
    assert_eq!(mentioned_numbers(""), Vec::<u32>::new());
    assert_eq!(mentioned_numbers("문제 없음"), Vec::<u32>::new());
    assert_eq!(mentioned_numbers("1000번 1001번"), vec![1000, 1001]);
    assert_eq!(mentioned_numbers("a12b007c0"), vec![12, 7, 0]);
    assert_eq!(mentioned_numbers("-5 and +6"), vec![5, 6]);
    assert_eq!(mentioned_numbers("3.14"), vec![3, 14]);
}

#[test]
fn numbers_too_large_are_capped() {
    assert_eq!(mentioned_numbers("4294967295"), vec![u32::MAX]);
    assert_eq!(mentioned_numbers("4294967296"), vec![u32::MAX]);
    assert_eq!(
        mentioned_numbers("1 99999999999999999999999999 2"),
        vec![1, u32::MAX, 2]
    );
}

#[test]
fn arguments_as_numbers() {
    assert_eq!(parse_numbers(&strings(&[])), Some(vec![]));
    assert_eq!(parse_numbers(&strings(&["1000"])), Some(vec![1000]));
    assert_eq!(parse_numbers(&strings(&["1000", "+7", "0"])), Some(vec![1000, 7, 0]));
    assert_eq!(parse_numbers(&strings(&["1000", "x"])), None);
    assert_eq!(parse_numbers(&strings(&["x", "1000"])), None);
    assert_eq!(parse_numbers(&strings(&["-1"])), None);
    assert_eq!(parse_numbers(&strings(&["4294967296"])), None);
    assert_eq!(parse_numbers(&strings(&["1000번"])), None);
}
