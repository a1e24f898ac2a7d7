//! Fetches the whole catalog of an artist's uploads from a GraphQL API, page by page, and finds
//! for each track the delivery shard that serves its full-quality audio.
//!
//! Every decision is made here, on plain values, and proved: the caller performs each request
//! that a step names and hands back what it saw.

pub mod args;
pub mod downloader;
pub mod locator;
pub mod naming;
pub mod pager;
pub mod payload;
pub mod run;
pub mod text;
pub mod track;
