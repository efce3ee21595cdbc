//! A recursive web crawler's coordination logic: host classification, link
//! resolution, per-page and per-host decisions, and target bookkeeping.

pub mod coordinator;
pub mod crawler;
pub mod error;
pub mod host;
pub mod link;
pub mod target;
pub mod text;
pub mod worker;
