//! What to do with an update.
//!
//! An update is handled in two steps with the upstream service between them.
//! [`route`] reads the update and names the request to make, if any. Once the
//! caller has the records, one of the `answer_` functions writes the reply.
//! Nothing here sends or fetches anything.

use crate::command::{
    args_of, label_of, mentioned_numbers, numbers_in, numbers_of, parse_numbers, Command,
};
use crate::cursor::{cursor_of_text, Cursor};
use crate::formatter::{
    articles_of, problem_articles, problem_lines, problem_show_to_message,
    search_problem_to_query, user_card, user_show_to_message, InlineArticle, Message,
    TextMessage, UserCard,
};
use crate::json::Record;
use crate::page::{next_offset_text, paginate, visible};
use crate::text::{option_text, text_eq, texts_of};
use vstd::prelude::*;
use vstd::string::*;

verus! {

/// What arrived.
#[derive(Debug)]
pub enum Update {
    /// An inline query: its identifier, the text searched for, and the offset
    /// that the client sends back to go on where the last answer ended.
    InlineQuery { id: String, query: String, offset: String },
    /// A message in a chat: its text, if it is a text message, and the text of
    /// the message that it answers, if it answers a text message.
    Message { chat_id: i64, message_id: i64, text: Option<String>, reply_text: Option<String> },
    /// The schedule asks for a pass of the rating poll.
    Tick,
    /// Anything else.
    Other,
}

/// An update as contracts speak of it.
pub enum Inbound {
    InlineQuery { id: Seq<char>, query: Seq<char>, offset: Seq<char> },
    Message {
        chat_id: i64,
        message_id: i64,
        text: Option<Seq<char>>,
        reply_text: Option<Seq<char>>,
    },
    Tick,
    Other,
}

impl View for Update {
    type V = Inbound;

    open spec fn view(&self) -> Inbound {
        match *self {
            Update::InlineQuery { id, query, offset } => Inbound::InlineQuery {
                id: id@,
                query: query@,
                offset: offset@,
            },
            Update::Message { chat_id, message_id, text, reply_text } => Inbound::Message {
                chat_id,
                message_id,
                text: option_text(text),
                reply_text: option_text(reply_text),
            },
            Update::Tick => Inbound::Tick,
            Update::Other => Inbound::Other,
        }
    }
}

/// What an update asks for.
#[derive(Debug)]
pub enum Request {
    /// Search for `query` and answer the inline query with the page at
    /// `cursor`.
    Search { query_id: String, query: String, cursor: Cursor },
    /// Look up the problems `ids` and show them in the chat.
    Problems { chat_id: i64, ids: Vec<u32> },
    /// Look up the problems `ids`, which the message answered mentions, and
    /// show them in answer to message `message_id`.
    Referenced { chat_id: i64, message_id: i64, ids: Vec<u32> },
    /// Look up the user `handle` and show the user in the chat.
    User { chat_id: i64, handle: String },
    /// Send this message.
    Reply(TextMessage),
    /// Make a pass of the rating poll.
    Poll,
    /// Do nothing.
    Nothing,
}

/// A request as contracts speak of it.
pub enum Plan {
    Search { query_id: Seq<char>, query: Seq<char>, cursor: Cursor },
    Problems { chat_id: i64, ids: Seq<u32> },
    Referenced { chat_id: i64, message_id: i64, ids: Seq<u32> },
    User { chat_id: i64, handle: Seq<char> },
    Reply(Message),
    Poll,
    Nothing,
}

impl View for Request {
    type V = Plan;

    open spec fn view(&self) -> Plan {
        match *self {
            Request::Search { query_id, query, cursor } => Plan::Search {
                query_id: query_id@,
                query: query@,
                cursor,
            },
            Request::Problems { chat_id, ids } => Plan::Problems { chat_id, ids: ids@ },
            Request::Referenced { chat_id, message_id, ids } => Plan::Referenced {
                chat_id,
                message_id,
                ids: ids@,
            },
            Request::User { chat_id, handle } => Plan::User { chat_id, handle: handle@ },
            Request::Reply(message) => Plan::Reply(message@),
            Request::Poll => Plan::Poll,
            Request::Nothing => Plan::Nothing,
        }
    }
}

/// A message of plain text to a chat.
pub open spec fn plain_message(chat_id: i64, text: Seq<char>) -> Message {
    Message { chat_id, text, reply_to: None, markdown: false, no_preview: false }
}

/// What the command `/problem` with these arguments asks for: the problems
/// named, where every argument is the numeral of a `u32` and there is at
/// least one; a reminder of its usage otherwise.
pub open spec fn problem_plan(chat_id: i64, args: Seq<Seq<char>>) -> Plan {
    match numbers_of(args) {
        Some(ids) => if ids.len() > 0 {
            Plan::Problems { chat_id, ids }
        } else {
            Plan::Reply(plain_message(chat_id, "사용법: /problem <문제번호1> <문제번호2> <...>"@))
        },
        None => Plan::Reply(plain_message(chat_id, "사용법: /problem <문제번호1> <문제번호2> <...>"@)),
    }
}

/// What the command `/user` with these arguments asks for: the user named
/// by the first argument, or a reminder of its usage where there is none.
pub open spec fn user_plan(chat_id: i64, args: Seq<Seq<char>>) -> Plan {
    if args.len() > 0 {
        Plan::User { chat_id, handle: args[0] }
    } else {
        Plan::Reply(plain_message(chat_id, "사용법: /user <사용자명>"@))
    }
}

/// What the command `/get` asks for: the problems whose numbers the message
/// answered mentions, or nothing where it is no answer to a text or that text
/// mentions no number.
pub open spec fn get_plan(chat_id: i64, message_id: i64, reply_text: Option<Seq<char>>) -> Plan {
    match reply_text {
        Some(text) => if numbers_in(text).len() > 0 {
            Plan::Referenced { chat_id, message_id, ids: numbers_in(text) }
        } else {
            Plan::Nothing
        },
        None => Plan::Nothing,
    }
}

/// What an update asks for.
pub open spec fn plan_of(update: Inbound) -> Plan {
    match update {
        Inbound::InlineQuery { id, query, offset } => Plan::Search {
            query_id: id,
            query,
            cursor: cursor_of_text(offset),
        },
        Inbound::Message { chat_id, message_id, text: Some(text), reply_text } => {
            if label_of(text) == "/problem"@ {
                problem_plan(chat_id, args_of(text))
            } else if label_of(text) == "/user"@ {
                user_plan(chat_id, args_of(text))
            } else if label_of(text) == "/get"@ {
                get_plan(chat_id, message_id, reply_text)
            } else {
                Plan::Nothing
            }
        },
        Inbound::Message { text: None, .. } => Plan::Nothing,
        Inbound::Tick => Plan::Poll,
        Inbound::Other => Plan::Nothing,
    }
}

fn route_problem(chat_id: i64, args: &Vec<String>) -> (request: Request)
    ensures
        request@ == problem_plan(chat_id, texts_of(args@)),
{
    match parse_numbers(args) {
        Some(ids) => {
            if ids.len() > 0 {
                Request::Problems { chat_id, ids }
            } else {
                Request::Reply(
                    TextMessage::plain(chat_id, "사용법: /problem <문제번호1> <문제번호2> <...>"),
                )
            }
        },
        None => Request::Reply(
            TextMessage::plain(chat_id, "사용법: /problem <문제번호1> <문제번호2> <...>"),
        ),
    }
}

fn route_user(chat_id: i64, args: Vec<String>) -> (request: Request)
    ensures
        request@ == user_plan(chat_id, texts_of(args@)),
{
    let mut args = args;
    if args.len() > 0 {
        let handle = args.remove(0);
        Request::User { chat_id, handle }
    } else {
        Request::Reply(TextMessage::plain(chat_id, "사용법: /user <사용자명>"))
    }
}

fn route_get(chat_id: i64, message_id: i64, reply_text: Option<String>) -> (request: Request)
    ensures
        request@ == get_plan(chat_id, message_id, option_text(reply_text)),
{
    match reply_text {
        Some(text) => {
            let ids = mentioned_numbers(text.as_str());
            if ids.len() > 0 {
                Request::Referenced { chat_id, message_id, ids }
            } else {
                Request::Nothing
            }
        },
        None => Request::Nothing,
    }
}

/// Reads an update and names what it asks for.
pub fn route(update: Update) -> (request: Request)
    ensures
        request@ == plan_of(update@),
        request matches Request::Search { cursor, .. } ==> cursor.wf(),
        request matches Request::Problems { ids, .. } ==> ids@.len() > 0,
        request matches Request::Referenced { ids, .. } ==> ids@.len() > 0,
{
    match update {
        Update::InlineQuery { id, query, offset } => {
            let cursor = Cursor::decode(offset.as_str());
            Request::Search { query_id: id, query, cursor }
        },
        Update::Message { chat_id, message_id, text: Some(text), reply_text } => {
            let command = Command::new(text.as_str());
            if text_eq(command.label.as_str(), "/problem") {
                route_problem(chat_id, &command.args)
            } else if text_eq(command.label.as_str(), "/user") {
                route_user(chat_id, command.args)
            } else if text_eq(command.label.as_str(), "/get") {
                route_get(chat_id, message_id, reply_text)
            } else {
                Request::Nothing
            }
        },
        Update::Message { text: None, .. } => Request::Nothing,
        Update::Tick => Request::Poll,
        Update::Other => Request::Nothing,
    }
}

/// The answer to an inline query.
#[derive(Debug)]
pub struct InlineAnswer {
    pub query_id: String,
    pub results: Vec<InlineArticle>,
    pub next_offset: Option<String>,
}

/// Answers an inline query with the page at `cursor` of the upstream page
/// `records` that was fetched for it: the articles of the records that the
/// page shows, and the offset of the next page where one is offered.
pub fn answer_search(query_id: String, cursor: Cursor, records: &[Record]) -> (answer:
    InlineAnswer)
    ensures
        answer.query_id == query_id,
        articles_of(answer.results@) == problem_articles(visible(records@, cursor.half)),
        answer.results@.len() <= 50,
        option_text(answer.next_offset) == next_offset_text(
            cursor.page,
            cursor.half,
            records@.len(),
        ),
{
    let page = paginate(cursor, records);
    let results = search_problem_to_query(page.shown);
    assert(articles_of(results@).len() == results@.len());
    InlineAnswer { query_id, results, next_offset: page.next_offset }
}

/// What is said of the problems that were looked up for `/problem`: that none
/// was found, or the problems.
pub open spec fn problems_reply(chat_id: i64, records: Seq<Record>) -> Message {
    if records.len() == 0 {
        plain_message(chat_id, "문제를 찾을 수 없습니다."@)
    } else {
        Message {
            chat_id,
            text: problem_lines(records),
            reply_to: None,
            markdown: true,
            no_preview: true,
        }
    }
}

/// Writes the reply to `/problem` from the problems that were looked up.
pub fn answer_problems(chat_id: i64, records: &[Record]) -> (message: TextMessage)
    ensures
        message@ == problems_reply(chat_id, records@),
{
    if records.len() == 0 {
        TextMessage::plain(chat_id, "문제를 찾을 수 없습니다.")
    } else {
        problem_show_to_message(chat_id, records)
    }
}

/// Writes the reply to `/get` from the problems that were looked up: the
/// problems, in answer to the message that asked.
pub fn answer_referenced(chat_id: i64, message_id: i64, records: &[Record]) -> (message:
    TextMessage)
    ensures
        message@ == (Message {
            chat_id,
            text: problem_lines(records@),
            reply_to: Some(message_id),
            markdown: true,
            no_preview: true,
        }),
{
    problem_show_to_message(chat_id, records).reply_to(message_id)
}

/// The reply to `/user`.
#[derive(Debug)]
pub enum UserAnswer {
    /// The user was found: show this card.
    Card(UserCard),
    /// No such user: say so.
    Unknown(TextMessage),
}

/// Writes the reply to `/user` from what the lookup of the user brought.
pub fn answer_user(chat_id: i64, record: Option<&Record>) -> (answer: UserAnswer)
    ensures
        match record {
            Some(r) => answer matches UserAnswer::Card(card) && card@ == user_card(chat_id, *r),
            None => answer matches UserAnswer::Unknown(message) && message@ == plain_message(
                chat_id,
                "사용자를 찾을 수 없습니다."@,
            ),
        },
{
    match record {
        Some(r) => UserAnswer::Card(user_show_to_message(chat_id, r)),
        None => UserAnswer::Unknown(TextMessage::plain(chat_id, "사용자를 찾을 수 없습니다.")),
    }
}

} // verus!
