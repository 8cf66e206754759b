//! Reads configuration documents with the comments that their authors wrote, and
//! writes them back after edits without losing those comments.
//!
//! A document is text in sections: `[section]` headers, `key = value` assignments
//! and `#` comments. An outside parser turns the text into a tree of typed values;
//! this library walks the tree beside the raw text, attaches to each section and
//! field the comment found for it, and writes the sections back as text.
//!
//! Everything here is verified against the contracts it states. What the outside
//! parser and the outside pattern engine make of a text is known only by name: see
//! [`parser`] and [`pattern`].

pub mod comments;
pub mod document;
pub mod extract;
pub mod literal;
pub mod logs;
pub mod manager;
pub mod parser;
pub mod pattern;
pub mod reconstruct;
pub mod round_trip;
pub mod services;
pub mod text;
pub mod value;
