//! Client-side core of a Maconomy time-registration CLI.
//!
//! The crate holds the verified logic of the client: the calendar and
//! week-numbering model, the parsers for user input, the session and
//! synchronization state machines, and the document model of the server's
//! container protocol. All network and file I/O stays outside.

pub mod date;
pub mod errors;
pub mod holidays;
pub mod text;
pub mod clock;
pub mod day;
pub mod day_parser;
pub mod document;
pub mod config;
pub mod search;
pub mod service;
pub mod session;
pub mod time_sheet;
pub mod line_number;
pub mod protocol;
pub mod repository;
pub mod week;
pub mod week_parser;
