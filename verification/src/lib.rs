//! A session-aware client library for a legacy, HTML-only web forum.
//!
//! The forum exposes no structured API for most operations, so structured
//! data (threads, posts, reply-form tokens) is recovered from server-rendered
//! HTML against fixed structural assumptions. This crate holds the extraction
//! and session/polling protocol layer: the HTML-to-record extractors with
//! their fail-fast error behaviour, the query and payload builders, the
//! paginated-fetch protocol for bookmarked threads, the tail/polling engine
//! that deduplicates already-seen posts, and the session-cookie filtering
//! rules. The transport itself (HTTP requests, file I/O, prompting) is an
//! external collaborator that hands this library plain values.

pub mod client;
pub mod error;
pub mod post_list;
pub mod reply;
pub mod scrape;
pub mod session;
pub mod tail;
pub mod text;
pub mod thread_list;

pub use error::Error;
