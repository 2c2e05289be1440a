//! Extraction of weighted job-posting keywords, with a fetch cache, a
//! registry of per-site extractors and a serialising scoring mailbox.
pub mod arbiter;
pub mod cache;
pub mod gather;
pub mod keywords;
pub mod page;
pub mod pipeline;
pub mod scrapers;
pub mod source;
pub mod text;
