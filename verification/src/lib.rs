//! Joins markdown lines that were broken between two runs of CJK text.
//!
//! Chinese, Japanese and Korean prose is written without spaces between
//! words, so a line break that an author put between two such runs should
//! not render as a space. This library parses markdown into its events,
//! drops every soft break that has CJK text on both sides, and writes the
//! remaining events back as markdown.
//!
//! The rule itself is verified: [`cjk`] classifies characters, [`token`]
//! finds the text nearest to a break, [`retain`] computes which events stay
//! and [`select`] filters them, and [`laws`] proves what holds of the rule
//! for every sequence of events. Parsing and writing markdown are the work
//! of `pulldown_cmark` and `pulldown_cmark_to_cmark`, and walking a book is
//! the work of `mdbook`; [`markdown`] and [`book`] hold what is taken on
//! trust about them. [`join`] puts the pieces together, [`preprocessor`]
//! applies the join to the chapters of a book, and [`protocol`] holds the
//! decisions of the command line around it.

pub mod book;
pub mod cjk;
pub mod join;
pub mod laws;
pub mod markdown;
pub mod preprocessor;
pub mod protocol;
pub mod retain;
pub mod select;
pub mod token;

pub use crate::cjk::{ends_with_cjk, is_cjk, starts_with_cjk};
pub use crate::join::{join_cjk_spacing, JoinError};
pub use crate::preprocessor::FixCJKSpacing;
pub use crate::token::{find_next_text, find_prev_text, Token};
