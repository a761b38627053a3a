//! Watches a job-listing page and reports the postings that are new since the
//! previous run.
//!
//! - `job`: a posting and its value as six character sequences.
//! - `extract`: postings from what the page's listing elements hold.
//! - `page`: finding the listing elements in the page's markup.
//! - `diff`: which postings of the current listing were not listed before.
//! - `snapshot`: the stored form of the last listing, and reading it back.
//! - `html`: the digest mail's page.
//! - `config`: mail settings from looked-up environment variables.
//! - `run`: the decisions of one run, from the fetch's outcome to what is sent
//!   and stored.

pub mod config;
pub mod diff;
pub mod extract;
pub mod html;
pub mod job;
pub mod page;
pub mod run;
pub mod snapshot;
