//! A terminal epub reader's library: chapter text extraction, book file
//! naming, and the reader's key-driven state machine.
pub mod app;
pub mod book;
pub mod files;

pub use app::{Action, App, Key, LayoutState};
pub use book::{join_paragraphs, parse_chapter_content};
pub use files::{book_name, epub_path, file_path, list_books};
