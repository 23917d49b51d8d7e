//! A terminal text editor's core: the rows of a document with their tab
//! expansion and highlighting, the cursor and viewport, incremental search,
//! the edit operations, and the composition of each screen frame.

pub mod contents;
pub mod cursor_controller;
pub mod editor;
pub mod editor_rows;
pub mod highlight;
pub mod keys;
pub mod output;
pub mod prompt;
pub mod row;
pub mod screen;
pub mod search;
pub mod status;
