//! A small personal-blog engine: a content server that lists and previews
//! markdown article files, and a client-side fetch-and-display pipeline that
//! paginates the article list and renders single articles.
//!
//! The crate holds the logic of both halves — listing (filter and sort),
//! pagination, preview truncation, content-encoding negotiation, and the
//! fetch-display state machine — as verified functions. Compression and
//! markdown conversion are performed by outside crates behind trusted
//! wrappers.

pub mod article_list;
pub mod blog_displayer;
pub mod blog_preview_list;
pub mod constants;
pub mod encoded;
pub mod list_displayer;
pub mod preview;
pub mod request_loader;
pub mod routes;
pub mod strings;
