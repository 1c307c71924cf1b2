//! Forms of questions: reading and combining them, checking answers, serving a
//! component's requests, running a wizard over them and writing new ones.
//!
//! Values are plain: JSON is [`json::Json`], texts are strings, and what was read
//! from files, typed in or evaluated comes in as an argument. Contracts speak of
//! the views of these values; the `law_` functions state what holds across them.

pub mod answers;
pub mod assets;
pub mod authoring;
pub mod builder;
pub mod catalog;
pub mod cbor;
pub mod cli;
pub mod console;
pub mod context;
pub mod described;
pub mod driver;
pub mod entries;
pub mod faults;
pub mod form;
pub mod hints;
pub mod host;
pub mod inclusion;
pub mod json;
pub mod json_text;
pub mod localize;
pub mod modes;
pub mod paths;
pub mod replay;
pub mod requests;
pub mod responses;
pub mod text;
pub mod typed;
pub mod validate;
pub mod wizard;
