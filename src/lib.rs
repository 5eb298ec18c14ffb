//! Answers "how do I ..." questions from a Q&A site: the verified core of the
//! search, extraction, ordered merge and delivery pipeline.

pub mod answer;
pub mod error;
pub mod query;
pub mod body;
pub mod page;
pub mod fanin;
pub mod bridge;
pub mod pipeline;
