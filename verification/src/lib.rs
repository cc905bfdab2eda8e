//! Verified core of a log-file ingestion pipeline: compression dispatch,
//! file discovery, regex-driven event extraction, timestamp and log-level
//! interpretation, and event accumulation.

pub mod compression;
pub mod config;
pub mod error;
pub mod event;
pub mod parser;
pub mod num;
pub mod text;
