//! A line-oriented text buffer with cursor-addressed editing, lexical
//! highlighting and substring search, together with the cursor and
//! key-handling rules of a terminal editor built on it.

pub mod text;
pub mod document;
pub mod editor;
pub mod filetype;
pub mod highlighting;
pub mod row;
pub mod search;
pub mod terminal;

pub use document::Document;
pub use editor::Position;
pub use editor::SearchDirection;
pub use filetype::FileType;
pub use filetype::HighlightingOptions;
pub use row::Row;
pub use terminal::Terminal;
