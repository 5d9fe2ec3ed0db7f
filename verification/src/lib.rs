//! A model of one SIP message, request or response, with builders that set
//! its headers, a serializer that writes its wire text and a parser that
//! reads wire text back.
//!
//! Every contract speaks of texts as sequences of characters. The module
//! `text` holds searching and splitting, `decimal` the numerals of lengths,
//! `method` the request methods and their tokens, `error` the failures,
//! `message` the message and its builders, `wire` the serializer and the
//! parser, `lines` the facts about single lines, and `laws` what holds
//! between writing a message out and reading it back.
pub mod decimal;
pub mod error;
pub mod laws;
pub mod lines;
pub mod message;
pub mod method;
pub mod text;
pub mod wire;

pub use crate::error::SipError;
pub use crate::message::{Message, MessageType};
pub use crate::method::RequestMethod;
