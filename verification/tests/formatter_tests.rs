use serde_json::Value;
use solved_bot::formatter::{
    class_to_name, escape_markdown_v2, level_to_name, problem_show_to_message,
    search_problem_to_query, tier_to_name, user_show_to_message, TextMessage,
};

fn object(fields: Vec<(&str, Value)>) -> serde_json::Map<String, Value> {
    let mut map = serde_json::Map::new();
    for (key, value) in fields {
        map.insert(key.to_string(), value);
    }
    map
}

fn problem(id: u64, title: &str, level: u64) -> serde_json::Map<String, Value> {
    object(vec![
        ("problemId", Value::from(id)),
        ("titleKo", Value::from(title)),
        ("level", Value::from(level)),
    ])
}

#[test]
fn level_names() {
    assert_eq!(level_to_name(0), Some("Unrated".to_string()));
    assert_eq!(level_to_name(1), Some("Bronze V".to_string()));
    assert_eq!(level_to_name(2), Some("Bronze IV".to_string()));
    assert_eq!(level_to_name(3), Some("Bronze III".to_string()));
    assert_eq!(level_to_name(4), Some("Bronze II".to_string()));
    assert_eq!(level_to_name(5), Some("Bronze I".to_string()));
    assert_eq!(level_to_name(6), Some("Silver V".to_string()));
    assert_eq!(level_to_name(11), Some("Gold V".to_string()));
    assert_eq!(level_to_name(16), Some("Platinum V".to_string()));
    assert_eq!(level_to_name(23), Some("Diamond III".to_string()));
    assert_eq!(level_to_name(26), Some("Ruby V".to_string()));
    assert_eq!(level_to_name(30), Some("Ruby I".to_string()));
    assert_eq!(level_to_name(31), None);
    assert_eq!(level_to_name(u64::MAX), None);
}

#[test]
fn tier_names() {
    assert_eq!(tier_to_name(0), Some("Unranked".to_string()));
    assert_eq!(tier_to_name(1), Some("Bronze V".to_string()));
    assert_eq!(tier_to_name(10), Some("Silver I".to_string()));
    assert_eq!(tier_to_name(15), Some("Gold I".to_string()));
    assert_eq!(tier_to_name(30), Some("Ruby I".to_string()));
    assert_eq!(tier_to_name(31), Some("Master".to_string()));
    assert_eq!(tier_to_name(32), None);
}

#[test]
fn graded_names_agree_between_level_and_tier() {
    let metals = ["Bronze", "Silver", "Gold", "Platinum", "Diamond", "Ruby"];
    let steps = ["V", "IV", "III", "II", "I"];
    for level in 1u64..=30 {
        let name = format!(
            "{} {}",
            metals[((level - 1) / 5) as usize],
            steps[((level - 1) % 5) as usize]
        );
        assert_eq!(level_to_name(level), Some(name.clone()));
        assert_eq!(tier_to_name(level), Some(name));
    }
}

#[test]
fn class_names() {
    assert_eq!(class_to_name(0, "none"), Some("0".to_string()));
    assert_eq!(class_to_name(5, "none"), Some("5".to_string()));
    assert_eq!(class_to_name(5, "silver"), Some("5\\+".to_string()));
    assert_eq!(class_to_name(10, "gold"), Some("10\\+\\+".to_string()));
    assert_eq!(class_to_name(5, ""), None);
    assert_eq!(class_to_name(5, "Gold"), None);
    assert_eq!(class_to_name(5, "golden"), None);
    assert_eq!(class_to_name(5, "N/A"), None);
}

#[test]
fn escape_reserved_characters() {
    assert_eq!(escape_markdown_v2(""), "");
    assert_eq!(escape_markdown_v2("hello world"), "hello world");
    assert_eq!(escape_markdown_v2("a_b"), "a\\_b");
    assert_eq!(escape_markdown_v2("A+B"), "A\\+B");
    assert_eq!(escape_markdown_v2("_*[]()~`>#"), "\\_\\*\\[\\]\\(\\)\\~\\`\\>\\#");
    assert_eq!(escape_markdown_v2("|{}.!"), "\\|\\{\\}\\.\\!");
    assert_eq!(escape_markdown_v2("+,-./"), "\\+\\,\\-\\.\\/");
    assert_eq!(escape_markdown_v2(":;<="), "\\:\\;\\<\\=");
}

#[test]
fn escape_takes_in_the_digits() {
    assert_eq!(escape_markdown_v2("0123456789"), "\\0\\1\\2\\3\\4\\5\\6\\7\\8\\9");
    assert_eq!(escape_markdown_v2("1+1=2"), "\\1\\+\\1\\=\\2");
}

#[test]
fn escape_leaves_other_characters() {
    assert_eq!(escape_markdown_v2("가장 긴 증가하는 부분 수열"), "가장 긴 증가하는 부분 수열");
    assert_eq!(escape_markdown_v2("\\ \" ' $ % & ? @ ^"), "\\ \" ' $ % & ? @ ^");
    assert_eq!(escape_markdown_v2("별 찍기 - 10"), "별 찍기 \\- \\1\\0");
    assert_eq!(escape_markdown_v2("😀!"), "😀\\!");
}

#[test]
fn search_articles() {
    let records = vec![
        problem(1000, "A+B", 1),
        object(vec![
            ("problemId", Value::from(2557u64)),
            ("titleKo", Value::from("Hello World")),
            ("level", Value::from(0u64)),
            ("isPartial", Value::from(true)),
            ("isSolvable", Value::from(false)),
        ]),
        object(vec![
            ("problemId", Value::from(9u64)),
            ("titleKo", Value::from("x")),
            ("level", Value::from(30u64)),
            ("isPartial", Value::from(false)),
            ("isSolvable", Value::from(true)),
        ]),
    ];
    let articles = search_problem_to_query(&records);
    assert_eq!(articles.len(), 3);
    assert_eq!(articles[0].id, "SPTQ1000");
    assert_eq!(articles[0].title, "A+B");
    assert_eq!(articles[0].description, "Bronze V");
    assert_eq!(
        articles[0].message_text,
        "[Bronze V \\- \\#1000 A\\+B](https://boj.kr/1000)\n"
    );
    assert_eq!(articles[1].id, "SPTQ2557");
    assert_eq!(articles[1].description, "Unrated");
    assert_eq!(
        articles[1].message_text,
        "[Unrated \\- \\#2557 Hello World](https://boj.kr/2557)\n [부분 점수 / 서브태스크] \\(채점 준비중\\)"
    );
    assert_eq!(
        articles[2].message_text,
        "[Ruby I \\- \\#9 x](https://boj.kr/9)\n"
    );
}

#[test]
fn search_article_of_an_empty_record() {
    let articles = search_problem_to_query(&[serde_json::Map::new()]);
    assert_eq!(articles.len(), 1);
    assert_eq!(articles[0].id, "SPTQN/A");
    assert_eq!(articles[0].title, "N/A");
    assert_eq!(articles[0].description, "N/A");
    assert_eq!(articles[0].message_text, "[N/A \\- \\#N/A N\\/A](https://boj.kr/N/A)\n");
}

#[test]
fn fields_of_another_kind_count_as_missing() {
    let record = object(vec![
        ("problemId", Value::from("1000")),
        ("titleKo", Value::from(17u64)),
        ("level", Value::from(-3i64)),
        ("isPartial", Value::from("true")),
        ("isSolvable", Value::from(0u64)),
    ]);
    let articles = search_problem_to_query(&[record]);
    assert_eq!(articles[0].id, "SPTQN/A");
    assert_eq!(articles[0].title, "N/A");
    assert_eq!(articles[0].description, "N/A");
    assert_eq!(articles[0].message_text, "[N/A \\- \\#N/A N\\/A](https://boj.kr/N/A)\n");
}

#[test]
fn level_without_a_name_is_not_available() {
    let articles = search_problem_to_query(&[problem(1, "t", 31)]);
    assert_eq!(articles[0].description, "N/A");
}

#[test]
fn search_of_nothing() {
    assert!(search_problem_to_query(&[]).is_empty());
}

#[test]
fn problems_message() {
    let records = vec![problem(1000, "A+B", 1), problem(1001, "A-B", 2), problem(11, "ㄱ", 17)];
    let message = problem_show_to_message(77, &records);
    assert_eq!(message.chat_id, 77);
    assert_eq!(
        message.text,
        "[Bronze V \\- \\#1000 A\\+B](https://boj.kr/1000)\n\
         [Bronze IV \\- \\#1001 A\\-B](https://boj.kr/1001)\n\
         [Platinum IV \\- \\#11 ㄱ](https://boj.kr/11)"
    );
    assert_eq!(message.reply_to, None);
    assert!(message.markdown);
    assert!(message.no_preview);
}

#[test]
fn problems_message_of_one_and_of_none() {
    let one = problem_show_to_message(-5, &[problem(1000, "A+B", 1)]);
    assert_eq!(one.text, "[Bronze V \\- \\#1000 A\\+B](https://boj.kr/1000)");
    let none = problem_show_to_message(-5, &[]);
    assert_eq!(none.text, "");
    assert_eq!(none.chat_id, -5);
    assert!(none.markdown);
}

#[test]
fn text_message_builders() {
    let plain = TextMessage::plain(3, "hello");
    assert_eq!(plain.chat_id, 3);
    assert_eq!(plain.text, "hello");
    assert_eq!(plain.reply_to, None);
    assert!(!plain.markdown);
    assert!(!plain.no_preview);
    let reply = plain.reply_to(44);
    assert_eq!(reply.reply_to, Some(44));
    assert_eq!(reply.text, "hello");
    assert_eq!(reply.chat_id, 3);
}

fn user() -> serde_json::Map<String, Value> {
    object(vec![
        ("handle", Value::from("kiwiyou")),
        ("bio", Value::from("hi!")),
        ("tier", Value::from(16u64)),
        ("class", Value::from(5u64)),
        ("classDecoration", Value::from("silver")),
        ("rating", Value::from(1905u64)),
        ("ratingByProblemsSum", Value::from(1505u64)),
        ("ratingByClass", Value::from(200u64)),
        ("ratingBySolvedCount", Value::from(175u64)),
        ("ratingByVoteCount", Value::from(25u64)),
        ("solvedCount", Value::from(1234u64)),
        ("voteCount", Value::from(56u64)),
        ("rivalCount", Value::from(7u64)),
        ("rank", Value::from(321u64)),
        (
            "profileImageUrl",
            Value::from("https://static.solved.ac/uploads/profile/kiwiyou-picture.png"),
        ),
    ])
}

#[test]
fn user_card() {
    let card = user_show_to_message(99, &user());
    assert_eq!(card.chat_id, 99);
    assert_eq!(card.handle, "kiwiyou");
    assert_eq!(
        card.caption,
        "_hi\\!_\n\n*Platinum V*, 클래스 *5\\+*\n*321*위, *1234*문제 해결, *56*문제에 기여, *7*명의 라이벌\n레이팅 *1905* \\(난이도 *1905* \\+ 클래스 *200* \\+ 풀이 *175* \\+ 기여 *25*\\)"
    );
    assert_eq!(
        card.image_address,
        "https://static.solved.ac/uploads/profile/360x360/kiwiyou-picture.png"
    );
    assert_eq!(card.profile.text, "solved.ac 프로필");
    assert_eq!(card.profile.url, "https://solved.ac/profile/kiwiyou");
    assert_eq!(card.judge.text, "acmicpc.net 프로필");
    assert_eq!(card.judge.url, "https://acmicpc.net/user/kiwiyou");
}

#[test]
fn user_card_with_empty_biography() {
    let mut record = user();
    record.insert("bio".to_string(), Value::from(""));
    record.insert("tier".to_string(), Value::from(31u64));
    record.insert("classDecoration".to_string(), Value::from("none"));
    let card = user_show_to_message(1, &record);
    assert_eq!(
        card.caption,
        "*Master*, 클래스 *5*\n*321*위, *1234*문제 해결, *56*문제에 기여, *7*명의 라이벌\n레이팅 *1905* \\(난이도 *1905* \\+ 클래스 *200* \\+ 풀이 *175* \\+ 기여 *25*\\)"
    );
}

#[test]
fn user_card_of_an_empty_record() {
    let card = user_show_to_message(1, &serde_json::Map::new());
    assert_eq!(card.handle, "N/A");
    assert_eq!(
        card.caption,
        "_N\\/A_\n\n*N/A*, 클래스 *N/A*\n*N/A*위, *N/A*문제 해결, *N/A*문제에 기여, *N/A*명의 라이벌\n레이팅 *N/A* \\(난이도 *N/A* \\+ 클래스 *N/A* \\+ 풀이 *N/A* \\+ 기여 *N/A*\\)"
    );
    assert_eq!(
        card.image_address,
        "https://static.solved.ac/misc/360x360/default_profile.png"
    );
    assert_eq!(card.profile.url, "https://solved.ac/profile/N/A");
    assert_eq!(card.judge.url, "https://acmicpc.net/user/N/A");
}

#[test]
fn user_card_with_unknown_decoration() {
    let mut record = user();
    record.insert("classDecoration".to_string(), Value::from("bronze"));
    let card = user_show_to_message(1, &record);
    assert!(card.caption.contains("클래스 *N/A*"));
    record.remove("classDecoration");
    let card = user_show_to_message(1, &record);
    assert!(card.caption.contains("클래스 *N/A*"));
}

#[test]
fn picture_address_gets_the_size_after_every_profile_segment() {
    let mut record = user();
    record.insert(
        "profileImageUrl".to_string(),
        Value::from("https://x/profile/profile/a.png"),
    );
    let card = user_show_to_message(1, &record);
    assert_eq!(card.image_address, "https://x/profile/360x360/profile/360x360/a.png");
    record.insert("profileImageUrl".to_string(), Value::from("https://x/avatar/a.png"));
    let card = user_show_to_message(1, &record);
    assert_eq!(card.image_address, "https://x/avatar/a.png");
}

#[test]
fn rating_change_message() {
    let message = solved_bot::formatter::rating_change_to_message(42, "kiwiyou", 1500, 1600, &user());
    assert_eq!(message.chat_id, 42);
    assert_eq!(
        message.text,
        "kiwiyou님의 레이팅이 1500에서 1600(으)로 바뀌었습니다. 현재 티어: Platinum V"
    );
    assert_eq!(message.reply_to, None);
    assert!(!message.markdown);
    assert!(!message.no_preview);
    let bare =
        solved_bot::formatter::rating_change_to_message(-1, "x", 0, 1, &serde_json::Map::new());
    assert_eq!(bare.text, "x님의 레이팅이 0에서 1(으)로 바뀌었습니다. 현재 티어: N/A");
}
