//! Renders a folder of Markdown documents into styled HTML pages, keeps the
//! pages in an in-memory cache, and answers requests for the index and for
//! single documents from that cache.

pub mod cache;
pub mod convert;
pub mod dispatch;
pub mod loader;
pub mod markup;
pub mod page;
pub mod title;
