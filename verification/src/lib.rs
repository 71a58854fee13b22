//! Ranks of inscriptions on rare sats.
//!
//! Inscriptions are worked through in the order of their numbers. Each one that
//! sits on a sat of a category gets the next rank of that category, and keeps
//! it. Two searches list the inscriptions on the sats of the Trump Casascius
//! window: one over the `ord` server, one in its index.

pub mod args;
pub mod category;
pub mod counts;
pub mod daemon;
pub mod decimal;
pub mod httpscan;
pub mod ingest;
pub mod inscription;
pub mod json;
pub mod jsonl;
pub mod ledger;
pub mod options;
pub mod ord;
pub mod ranking;
pub mod redbscan;
pub mod satpoints;
pub mod text;
