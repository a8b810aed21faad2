//! The wording of replies: names of difficulty levels, tiers and classes,
//! and the texts that show problems and users.
//!
//! Replies are written in the MarkdownV2 dialect of the messaging service, in
//! which a set of characters has to be escaped by a backslash to stand for
//! itself. Texts taken from records are escaped; the markup around them is
//! not.

use crate::decimal::{format_u64, numeral};
use crate::json::{
    boolean_field, get_bool, get_str, get_u64, text_field, unsigned_field, Record,
};
use crate::text::{option_text, push_char, replace_all, replaced, text_eq};
use vstd::prelude::*;
use vstd::string::*;

verus! {

/// The metal of a rank from 0 (lowest) to 5 (highest).
pub open spec fn metal_word(rank: int) -> Seq<char> {
    if rank == 0 {
        "Bronze"@
    } else if rank == 1 {
        "Silver"@
    } else if rank == 2 {
        "Gold"@
    } else if rank == 3 {
        "Platinum"@
    } else if rank == 4 {
        "Diamond"@
    } else {
        "Ruby"@
    }
}

/// The Roman numeral of a step within a metal: step 0 is the lowest and is
/// written `V`, step 4 the highest and written `I`.
pub open spec fn step_word(step: int) -> Seq<char> {
    if step == 0 {
        "V"@
    } else if step == 1 {
        "IV"@
    } else if step == 2 {
        "III"@
    } else if step == 3 {
        "II"@
    } else {
        "I"@
    }
}

/// The name of a graded level from 1 to 30: five steps in each of six metals,
/// as the metal, a space and the step.
pub open spec fn graded_name(level: int) -> Seq<char> {
    metal_word((level - 1) / 5) + " "@ + step_word((level - 1) % 5)
}

/// The name of a problem's difficulty level: `Unrated` for 0, a graded name
/// for 1 to 30, none above.
pub open spec fn level_name(level: u64) -> Option<Seq<char>> {
    if level == 0 {
        Some("Unrated"@)
    } else if level <= 30 {
        Some(graded_name(level as int))
    } else {
        None
    }
}

/// The name of a user's tier: `Unranked` for 0, a graded name for 1 to 30,
/// `Master` for 31, none above.
pub open spec fn tier_name(tier: u64) -> Option<Seq<char>> {
    if tier == 0 {
        Some("Unranked"@)
    } else if tier <= 30 {
        Some(graded_name(tier as int))
    } else if tier == 31 {
        Some("Master"@)
    } else {
        None
    }
}

/// What is written after a class number for a decoration: nothing for
/// `none`, one escaped plus sign for `silver`, two for `gold`. Other
/// decorations are unknown.
pub open spec fn decoration_mark(decoration: Seq<char>) -> Option<Seq<char>> {
    if decoration == "none"@ {
        Some(""@)
    } else if decoration == "silver"@ {
        Some("\\+"@)
    } else if decoration == "gold"@ {
        Some("\\+\\+"@)
    } else {
        None
    }
}

/// The name of a class with its decoration: the class number followed by the
/// decoration's mark, none where the decoration is unknown.
pub open spec fn class_name(class: u64, decoration: Seq<char>) -> Option<Seq<char>> {
    match decoration_mark(decoration) {
        Some(mark) => Some(numeral(class as nat) + mark),
        None => None,
    }
}

fn metal_text(rank: u64) -> (word: &'static str)
    requires
        rank < 6,
    ensures
        word@ == metal_word(rank as int),
{
    if rank == 0 {
        "Bronze"
    } else if rank == 1 {
        "Silver"
    } else if rank == 2 {
        "Gold"
    } else if rank == 3 {
        "Platinum"
    } else if rank == 4 {
        "Diamond"
    } else {
        "Ruby"
    }
}

fn step_text(step: u64) -> (word: &'static str)
    requires
        step < 5,
    ensures
        word@ == step_word(step as int),
{
    if step == 0 {
        "V"
    } else if step == 1 {
        "IV"
    } else if step == 2 {
        "III"
    } else if step == 3 {
        "II"
    } else {
        "I"
    }
}

fn graded_text(level: u64) -> (name: String)
    requires
        1 <= level <= 30,
    ensures
        name@ == graded_name(level as int),
{
    let mut name = String::from_str(metal_text((level - 1) / 5));
    name.append(" ");
    name.append(step_text((level - 1) % 5));
    name
}

/// Names a problem's difficulty level.
pub fn level_to_name(level: u64) -> (name: Option<String>)
    ensures
        option_text(name) == level_name(level),
{
    if level == 0 {
        Some(String::from_str("Unrated"))
    } else if level <= 30 {
        Some(graded_text(level))
    } else {
        None
    }
}

/// Names a user's tier.
pub fn tier_to_name(level: u64) -> (name: Option<String>)
    ensures
        option_text(name) == tier_name(level),
{
    if level == 0 {
        Some(String::from_str("Unranked"))
    } else if level <= 30 {
        Some(graded_text(level))
    } else if level == 31 {
        Some(String::from_str("Master"))
    } else {
        None
    }
}

/// Names a user's class with its decoration.
pub fn class_to_name(class: u64, decoration: &str) -> (name: Option<String>)
    ensures
        option_text(name) == class_name(class, decoration@),
{
    let mark = if text_eq(decoration, "none") {
        ""
    } else if text_eq(decoration, "silver") {
        "\\+"
    } else if text_eq(decoration, "gold") {
        "\\+\\+"
    } else {
        return None;
    };
    let mut name = format_u64(class);
    name.append(mark);
    Some(name)
}

/// `c` is one of the characters that are escaped: `_ * [ ] ( ) ~ > # | { } !`,
/// the backquote, and every character from `+` to `=` in code order, which
/// takes in `, - . /`, the digits and `: ; <`.
pub open spec fn is_reserved(c: char) -> bool {
    ||| c == '_'
    ||| c == '*'
    ||| c == '['
    ||| c == ']'
    ||| c == '('
    ||| c == ')'
    ||| c == '~'
    ||| c == '`'
    ||| c == '>'
    ||| c == '#'
    ||| '+' <= c <= '='
    ||| c == '|'
    ||| c == '{'
    ||| c == '}'
    ||| c == '.'
    ||| c == '!'
}

/// `s` with a backslash before each reserved character.
pub open spec fn escaped(s: Seq<char>) -> Seq<char>
    decreases s.len(),
{
    if s.len() == 0 {
        Seq::empty()
    } else if is_reserved(s.last()) {
        escaped(s.drop_last()).push('\\').push(s.last())
    } else {
        escaped(s.drop_last()).push(s.last())
    }
}

fn reserved(c: char) -> (r: bool)
    ensures
        r == is_reserved(c),
{
    c == '_' || c == '*' || c == '[' || c == ']' || c == '(' || c == ')' || c == '~' || c == '`'
        || c == '>' || c == '#' || ('+' <= c && c <= '=') || c == '|' || c == '{' || c == '}'
        || c == '.' || c == '!'
}

/// Escapes a text so that it stands for itself in MarkdownV2.
pub fn escape_markdown_v2(s: &str) -> (out: String)
    ensures
        out@ == escaped(s@),
{
    let mut out = String::new();
    for c in it: s.chars()
        invariant
            it.seq() == s@,
            out@ == escaped(s@.take(it.index() as int)),
    {
        assert(s@.take(it.index() + 1).drop_last() =~= s@.take(it.index() as int));
        assert(s@.take(it.index() + 1).last() == c);
        if reserved(c) {
            push_char(&mut out, '\\');
        }
        push_char(&mut out, c);
    }
    assert(s@.take(s@.len() as int) =~= s@);
    out
}

/// What is written in place of a value that a record does not hold.
pub open spec fn not_available() -> Seq<char> {
    "N/A"@
}

/// The number in field `key` of a record as a numeral, or `N/A`.
pub open spec fn unsigned_or_na(record: Record, key: Seq<char>) -> Seq<char> {
    match unsigned_field(record, key) {
        Some(n) => numeral(n as nat),
        None => not_available(),
    }
}

/// The string in field `key` of a record, or `N/A`.
pub open spec fn text_or_na(record: Record, key: Seq<char>) -> Seq<char> {
    match text_field(record, key) {
        Some(text) => text,
        None => not_available(),
    }
}

/// The name of the level of a problem record, or `N/A` where the record has
/// no level or a level without a name.
pub open spec fn level_or_na(record: Record) -> Seq<char> {
    match unsigned_field(record, "level"@) {
        Some(level) => match level_name(level) {
            Some(name) => name,
            None => not_available(),
        },
        None => not_available(),
    }
}

/// The name of the tier of a user record, or `N/A`.
pub open spec fn tier_or_na(record: Record) -> Seq<char> {
    match unsigned_field(record, "tier"@) {
        Some(tier) => match tier_name(tier) {
            Some(name) => name,
            None => not_available(),
        },
        None => not_available(),
    }
}

/// The name of the class of a user record with its decoration, or `N/A`.
pub open spec fn class_or_na(record: Record) -> Seq<char> {
    match unsigned_field(record, "class"@) {
        Some(class) => match class_name(class, text_or_na(record, "classDecoration"@)) {
            Some(name) => name,
            None => not_available(),
        },
        None => not_available(),
    }
}

/// The line that shows a problem: its level, number and title as a link to
/// the problem.
pub open spec fn problem_link(record: Record) -> Seq<char> {
    "["@ + level_or_na(record) + " \\- \\#"@ + unsigned_or_na(record, "problemId"@) + " "@
        + escaped(text_or_na(record, "titleKo"@)) + "](https://boj.kr/"@ + unsigned_or_na(
        record,
        "problemId"@,
    ) + ")"@
}

/// The note on a problem that is scored in parts.
pub open spec fn partial_note(record: Record) -> Seq<char> {
    if boolean_field(record, "isPartial"@) == Some(true) {
        " [부분 점수 / 서브태스크]"@
    } else {
        ""@
    }
}

/// The note on a problem that cannot be solved yet.
pub open spec fn unsolvable_note(record: Record) -> Seq<char> {
    if boolean_field(record, "isSolvable"@) == Some(false) {
        " \\(채점 준비중\\)"@
    } else {
        ""@
    }
}

/// An article of an inline answer as contracts speak of it.
pub struct Article {
    pub id: Seq<char>,
    pub title: Seq<char>,
    pub description: Seq<char>,
    pub message_text: Seq<char>,
}

/// An article of an inline answer: what the client lists, and the MarkdownV2
/// text that is sent when it is chosen.
#[derive(Debug)]
pub struct InlineArticle {
    pub id: String,
    pub title: String,
    pub description: String,
    pub message_text: String,
}

impl View for InlineArticle {
    type V = Article;

    open spec fn view(&self) -> Article {
        Article {
            id: self.id@,
            title: self.title@,
            description: self.description@,
            message_text: self.message_text@,
        }
    }
}

/// The article that shows a problem of a search.
pub open spec fn problem_article(record: Record) -> Article {
    Article {
        id: "SPTQ"@ + unsigned_or_na(record, "problemId"@),
        title: text_or_na(record, "titleKo"@),
        description: level_or_na(record),
        message_text: problem_link(record) + "\n"@ + partial_note(record) + unsolvable_note(record),
    }
}

/// The articles that show the problems of a search, one for each record and
/// in their order.
pub open spec fn problem_articles(records: Seq<Record>) -> Seq<Article> {
    records.map_values(|record: Record| problem_article(record))
}

/// The views of a list of articles.
pub open spec fn articles_of(articles: Seq<InlineArticle>) -> Seq<Article> {
    articles.map_values(|a: InlineArticle| a@)
}

/// The lines that show a list of problems, one for each, with a line feed
/// between one and the next.
pub open spec fn problem_lines(records: Seq<Record>) -> Seq<char>
    decreases records.len(),
{
    if records.len() == 0 {
        Seq::empty()
    } else if records.len() == 1 {
        problem_link(records.last())
    } else {
        problem_lines(records.drop_last()) + "\n"@ + problem_link(records.last())
    }
}

/// A text message as contracts speak of it.
pub struct Message {
    pub chat_id: i64,
    pub text: Seq<char>,
    pub reply_to: Option<i64>,
    pub markdown: bool,
    pub no_preview: bool,
}

/// A text message to send: to which chat, in answer to which message if to
/// any, whether its text is MarkdownV2, and whether link previews are off.
#[derive(Debug)]
pub struct TextMessage {
    pub chat_id: i64,
    pub text: String,
    pub reply_to: Option<i64>,
    pub markdown: bool,
    pub no_preview: bool,
}

impl View for TextMessage {
    type V = Message;

    open spec fn view(&self) -> Message {
        Message {
            chat_id: self.chat_id,
            text: self.text@,
            reply_to: self.reply_to,
            markdown: self.markdown,
            no_preview: self.no_preview,
        }
    }
}

impl TextMessage {
    /// A message of plain text.
    pub fn plain(chat_id: i64, text: &str) -> (message: TextMessage)
        ensures
            message@ == (Message {
                chat_id,
                text: text@,
                reply_to: None,
                markdown: false,
                no_preview: false,
            }),
    {
        TextMessage {
            chat_id,
            text: String::from_str(text),
            reply_to: None,
            markdown: false,
            no_preview: false,
        }
    }

    /// The same message as an answer to message `message_id`.
    pub fn reply_to(self, message_id: i64) -> (message: TextMessage)
        ensures
            message@ == (Message { reply_to: Some(message_id), ..self@ }),
    {
        TextMessage {
            chat_id: self.chat_id,
            text: self.text,
            reply_to: Some(message_id),
            markdown: self.markdown,
            no_preview: self.no_preview,
        }
    }
}

/// The number in field `key` of a record as a numeral, or `N/A`.
fn extract_u64_or_na(record: &Record, key: &str) -> (text: String)
    ensures
        text@ == unsigned_or_na(*record, key@),
{
    match get_u64(record, key) {
        Some(n) => format_u64(n),
        None => String::from_str("N/A"),
    }
}

/// The string in field `key` of a record, or `N/A`.
fn extract_str_or_na<'a>(record: &'a Record, key: &str) -> (text: &'a str)
    ensures
        text@ == text_or_na(*record, key@),
{
    match get_str(record, key) {
        Some(text) => text,
        None => "N/A",
    }
}

fn level_text(record: &Record) -> (text: String)
    ensures
        text@ == level_or_na(*record),
{
    match get_u64(record, "level") {
        Some(level) => match level_to_name(level) {
            Some(name) => name,
            None => String::from_str("N/A"),
        },
        None => String::from_str("N/A"),
    }
}

fn tier_text(record: &Record) -> (text: String)
    ensures
        text@ == tier_or_na(*record),
{
    match get_u64(record, "tier") {
        Some(tier) => match tier_to_name(tier) {
            Some(name) => name,
            None => String::from_str("N/A"),
        },
        None => String::from_str("N/A"),
    }
}

fn class_text(record: &Record) -> (text: String)
    ensures
        text@ == class_or_na(*record),
{
    let decoration = extract_str_or_na(record, "classDecoration");
    match get_u64(record, "class") {
        Some(class) => match class_to_name(class, decoration) {
            Some(name) => name,
            None => String::from_str("N/A"),
        },
        None => String::from_str("N/A"),
    }
}

fn problem_link_text(record: &Record) -> (text: String)
    ensures
        text@ == problem_link(*record),
{
    let id = extract_u64_or_na(record, "problemId");
    let title = escape_markdown_v2(extract_str_or_na(record, "titleKo"));
    let mut text = String::from_str("[");
    text.append(level_text(record).as_str());
    text.append(" \\- \\#");
    text.append(id.as_str());
    text.append(" ");
    text.append(title.as_str());
    text.append("](https://boj.kr/");
    text.append(id.as_str());
    text.append(")");
    text
}

fn problem_to_article(record: &Record) -> (article: InlineArticle)
    ensures
        article@ == problem_article(*record),
{
    let mut id = String::from_str("SPTQ");
    id.append(extract_u64_or_na(record, "problemId").as_str());
    let partial = match get_bool(record, "isPartial") {
        Some(true) => " [부분 점수 / 서브태스크]",
        _ => "",
    };
    let solvable = match get_bool(record, "isSolvable") {
        Some(false) => " \\(채점 준비중\\)",
        _ => "",
    };
    let mut message_text = problem_link_text(record);
    message_text.append("\n");
    message_text.append(partial);
    message_text.append(solvable);
    InlineArticle {
        id,
        title: String::from_str(extract_str_or_na(record, "titleKo")),
        description: level_text(record),
        message_text,
    }
}

/// Shows the problems of a search as the articles of an inline answer.
pub fn search_problem_to_query(result: &[Record]) -> (articles: Vec<InlineArticle>)
    ensures
        articles_of(articles@) == problem_articles(result@),
{
    let mut articles: Vec<InlineArticle> = Vec::new();
    let mut i: usize = 0;
    while i < result.len()
        invariant
            0 <= i <= result@.len(),
            articles@.len() == i,
            forall|k: int| 0 <= k < i ==> (#[trigger] articles@[k])@ == problem_article(result@[k]),
        decreases result@.len() - i,
    {
        articles.push(problem_to_article(&result[i]));
        i = i + 1;
    }
    assert(articles_of(articles@) =~= problem_articles(result@));
    articles
}

/// Shows a list of problems as one MarkdownV2 message without link previews,
/// a line for each problem.
pub fn problem_show_to_message(chat_id: i64, result: &[Record]) -> (message: TextMessage)
    ensures
        message@ == (Message {
            chat_id,
            text: problem_lines(result@),
            reply_to: None,
            markdown: true,
            no_preview: true,
        }),
{
    let mut text = String::new();
    let mut i: usize = 0;
    assert(result@.take(0) =~= Seq::<Record>::empty());
    while i < result.len()
        invariant
            0 <= i <= result@.len(),
            text@ == problem_lines(result@.take(i as int)),
        decreases result@.len() - i,
    {
        assert(result@.take(i + 1).drop_last() =~= result@.take(i as int));
        assert(result@.take(i + 1).last() == result@[i as int]);
        if i > 0 {
            text.append("\n");
        } else {
            assert(text@ + problem_link(result@[0]) =~= problem_link(result@[0]));
        }
        text.append(problem_link_text(&result[i]).as_str());
        i = i + 1;
    }
    assert(result@.take(result@.len() as int) =~= result@);
    TextMessage { chat_id, text, reply_to: None, markdown: true, no_preview: true }
}

/// The part of a user's caption that shows the biography: nothing where it
/// is empty, else the escaped biography in italics and a blank line.
pub open spec fn bio_part(record: Record) -> Seq<char> {
    let bio = text_or_na(record, "bio"@);
    if bio.len() == 0 {
        Seq::empty()
    } else {
        "_"@ + escaped(bio) + "_\n\n"@
    }
}

/// The caption that shows a user: biography, tier and class, rank and
/// counts, and the rating with its parts.
pub open spec fn user_caption(record: Record) -> Seq<char> {
    bio_part(record) + "*"@ + tier_or_na(record) + "*, 클래스 *"@ + class_or_na(record) + "*\n*"@
        + unsigned_or_na(record, "rank"@) + "*위, *"@ + unsigned_or_na(record, "solvedCount"@)
        + "*문제 해결, *"@ + unsigned_or_na(record, "voteCount"@) + "*문제에 기여, *"@
        + unsigned_or_na(record, "rivalCount"@) + "*명의 라이벌\n레이팅 *"@ + unsigned_or_na(
        record,
        "rating"@,
    ) + "* \\(난이도 *"@ + unsigned_or_na(record, "rating"@) + "* \\+ 클래스 *"@ + unsigned_or_na(
        record,
        "ratingByClass"@,
    ) + "* \\+ 풀이 *"@ + unsigned_or_na(record, "ratingBySolvedCount"@) + "* \\+ 기여 *"@
        + unsigned_or_na(record, "ratingByVoteCount"@) + "*\\)"@
}

/// The address of the picture of a user in the size that is shown: the
/// address in the record with the size put in after `profile/`, or that of the
/// stock picture where the record names none.
pub open spec fn profile_image_address(record: Record) -> Seq<char> {
    match text_field(record, "profileImageUrl"@) {
        Some(address) => replaced(address, "profile/"@, "profile/360x360/"@),
        None => "https://static.solved.ac/misc/360x360/default_profile.png"@,
    }
}

/// A button that opens a link, as contracts speak of it.
pub struct Link {
    pub text: Seq<char>,
    pub url: Seq<char>,
}

/// A button that opens a link.
#[derive(Debug)]
pub struct LinkButton {
    pub text: String,
    pub url: String,
}

impl View for LinkButton {
    type V = Link;

    open spec fn view(&self) -> Link {
        Link { text: self.text@, url: self.url@ }
    }
}

/// What shows a user, as contracts speak of it.
pub struct Card {
    pub chat_id: i64,
    pub handle: Seq<char>,
    pub caption: Seq<char>,
    pub image_address: Seq<char>,
    pub profile: Link,
    pub judge: Link,
}

/// What shows a user: a MarkdownV2 caption for the user's picture, where to
/// fetch that picture, and buttons that lead to the user's pages.
#[derive(Debug)]
pub struct UserCard {
    pub chat_id: i64,
    pub handle: String,
    pub caption: String,
    pub image_address: String,
    pub profile: LinkButton,
    pub judge: LinkButton,
}

impl View for UserCard {
    type V = Card;

    open spec fn view(&self) -> Card {
        Card {
            chat_id: self.chat_id,
            handle: self.handle@,
            caption: self.caption@,
            image_address: self.image_address@,
            profile: self.profile@,
            judge: self.judge@,
        }
    }
}

/// The card that shows the user of a record in chat `chat_id`.
pub open spec fn user_card(chat_id: i64, record: Record) -> Card {
    Card {
        chat_id,
        handle: text_or_na(record, "handle"@),
        caption: user_caption(record),
        image_address: profile_image_address(record),
        profile: Link {
            text: "solved.ac 프로필"@,
            url: "https://solved.ac/profile/"@ + text_or_na(record, "handle"@),
        },
        judge: Link {
            text: "acmicpc.net 프로필"@,
            url: "https://acmicpc.net/user/"@ + text_or_na(record, "handle"@),
        },
    }
}

fn user_caption_text(record: &Record) -> (text: String)
    ensures
        text@ == user_caption(*record),
{
    let bio = extract_str_or_na(record, "bio");
    let mut text = String::new();
    if !bio.is_empty() {
        text.append("_");
        text.append(escape_markdown_v2(bio).as_str());
        text.append("_\n\n");
        assert(text@ =~= bio_part(*record));
    }
    let rating = extract_u64_or_na(record, "rating");
    text.append("*");
    text.append(tier_text(record).as_str());
    text.append("*, 클래스 *");
    text.append(class_text(record).as_str());
    text.append("*\n*");
    text.append(extract_u64_or_na(record, "rank").as_str());
    text.append("*위, *");
    text.append(extract_u64_or_na(record, "solvedCount").as_str());
    text.append("*문제 해결, *");
    text.append(extract_u64_or_na(record, "voteCount").as_str());
    text.append("*문제에 기여, *");
    text.append(extract_u64_or_na(record, "rivalCount").as_str());
    text.append("*명의 라이벌\n레이팅 *");
    text.append(rating.as_str());
    text.append("* \\(난이도 *");
    text.append(rating.as_str());
    text.append("* \\+ 클래스 *");
    text.append(extract_u64_or_na(record, "ratingByClass").as_str());
    text.append("* \\+ 풀이 *");
    text.append(extract_u64_or_na(record, "ratingBySolvedCount").as_str());
    text.append("* \\+ 기여 *");
    text.append(extract_u64_or_na(record, "ratingByVoteCount").as_str());
    text.append("*\\)");
    text
}

fn profile_image_text(record: &Record) -> (address: String)
    ensures
        address@ == profile_image_address(*record),
{
    match get_str(record, "profileImageUrl") {
        Some(address) => {
            proof {
                reveal_strlit("profile/");
            }
            replace_all(address, "profile/", "profile/360x360/")
        },
        None => String::from_str("https://static.solved.ac/misc/360x360/default_profile.png"),
    }
}

/// Shows a user: the caption, the address of the picture and the buttons.
/// The picture itself is for the caller to fetch.
pub fn user_show_to_message(chat_id: i64, result: &Record) -> (card: UserCard)
    ensures
        card@ == user_card(chat_id, *result),
{
    let handle = extract_str_or_na(result, "handle");
    let mut profile_url = String::from_str("https://solved.ac/profile/");
    profile_url.append(handle);
    let mut judge_url = String::from_str("https://acmicpc.net/user/");
    judge_url.append(handle);
    UserCard {
        chat_id,
        handle: String::from_str(handle),
        caption: user_caption_text(result),
        image_address: profile_image_text(result),
        profile: LinkButton { text: String::from_str("solved.ac 프로필"), url: profile_url },
        judge: LinkButton { text: String::from_str("acmicpc.net 프로필"), url: judge_url },
    }
}

/// What a subscriber is told of a change of rating: the target, the rating
/// last seen, the live rating, and the tier in the live record.
pub open spec fn rating_change_text(
    target: Seq<char>,
    old_rating: u64,
    new_rating: u64,
    record: Record,
) -> Seq<char> {
    target + "님의 레이팅이 "@ + numeral(old_rating as nat) + "에서 "@ + numeral(new_rating as nat)
        + "(으)로 바뀌었습니다. 현재 티어: "@ + tier_or_na(record)
}

/// Writes the plain message that tells subscriber `subscriber` that the
/// rating of `target` went from `old_rating` to `new_rating`; `record` is the
/// live record of the target.
pub fn rating_change_to_message(
    subscriber: i64,
    target: &str,
    old_rating: u64,
    new_rating: u64,
    record: &Record,
) -> (message: TextMessage)
    ensures
        message@ == (Message {
            chat_id: subscriber,
            text: rating_change_text(target@, old_rating, new_rating, *record),
            reply_to: None,
            markdown: false,
            no_preview: false,
        }),
{
    let mut text = String::from_str(target);
    text.append("님의 레이팅이 ");
    text.append(format_u64(old_rating).as_str());
    text.append("에서 ");
    text.append(format_u64(new_rating).as_str());
    text.append("(으)로 바뀌었습니다. 현재 티어: ");
    text.append(tier_text(record).as_str());
    TextMessage { chat_id: subscriber, text, reply_to: None, markdown: false, no_preview: false }
}

} // verus!
