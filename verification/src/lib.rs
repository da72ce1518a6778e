//! The engine behind an emoji picker: it matches a typed query against a
//! fixed table of labelled glyphs, keeps the current result, and cuts it into
//! rows of five for a grid.

pub mod cache;
pub mod entry;
pub mod list;
pub mod matcher;
pub mod picker;
pub mod rows;

pub use crate::cache::ResultCache;
pub use crate::entry::{Emoji, ROW_WIDTH};
pub use crate::list::EmojiList;
pub use crate::matcher::{judge_fuzzy, score, Match, SCORE_THRESHOLD};
pub use crate::picker::{LoadError, Picker};
pub use crate::rows::{Row, Slot};
