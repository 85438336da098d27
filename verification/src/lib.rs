//! Link validation for multi-chapter books: every hyperlink of every chapter is
//! extracted, classified and checked against the book's chapters, their heading
//! anchors and, where asked for, the web.

pub mod anchors;
pub mod book;
pub mod check;
pub mod classify;
pub mod extract;
pub mod html;
pub mod link;
pub mod local;
pub mod markdown;
pub mod path;
pub mod report;
pub mod slug;
pub mod text;
pub mod web;
