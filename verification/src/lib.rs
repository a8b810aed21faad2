//! Pagination and rating-poll logic of a chat bot that relays problem-database lookups.

pub mod command;
pub mod cursor;
pub mod db;
pub mod decimal;
pub mod formatter;
pub mod handler;
pub mod json;
pub mod page;
pub mod pass;
pub mod poll;
pub mod solved;
pub mod text;
pub mod thumbnail;
