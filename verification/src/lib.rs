//! Schema completion and caching engine for a SQL language server.
//!
//! The crate models what schema knowledge is known for the active database
//! connection, decides which subset of that knowledge is relevant to the
//! document being edited, and keeps the cached subset consistent when the
//! connection changes.  Lexical analysis (tokenizer, matcher, hover word
//! resolution) and the cache protocol are verified; database drivers, the
//! editor protocol and file watching live outside the library and speak to
//! it through plain values.

pub mod cache;
pub mod chars;
pub mod column;
pub mod completion;
pub mod connection;
pub mod document;
pub mod engine;
pub mod entry;
pub mod repository;
pub mod service;
pub mod table;
pub mod tokenizer;
pub mod util;
