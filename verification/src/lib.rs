//! Reads web syndication feeds (RSS or Atom), resolves item links against the
//! feed's base URL, and decides which items to offer to a read-later service,
//! keeping an append-only ledger of already-processed links so that re-runs
//! never resubmit the same item.

use vstd::prelude::*;

mod errors;
pub mod instapaper;
mod ledger;
pub mod pipeline;
pub mod syndication;
pub mod urls;

pub use errors::FeedFormat;
pub use errors::ParseError;
pub use errors::PipelineError;
pub use errors::UrlError;
pub use ledger::ImportStats;
pub use ledger::Links;
pub use ledger::lemma_add_idempotent;
pub use ledger::lemma_cross_run_persistence;
pub use ledger::lemma_dedup_of_unique;
pub use ledger::lemma_line_count_unique;
pub use ledger::lemma_log_round_trip;
pub use ledger::lemma_persisted_once;
pub use ledger::line_count;
pub use ledger::no_dups;
pub use ledger::rows_view;
pub use ledger::seq_of_strings;
pub use ledger::spec_add;
pub use ledger::spec_dedup;
pub use ledger::spec_import;
pub use ledger::spec_lines;
pub use ledger::spec_render;
pub use pipeline::Action;
pub use pipeline::Candidate;
pub use pipeline::FeedRun;
pub use pipeline::Phase;
pub use pipeline::lemma_oldest_first;
pub use pipeline::spec_feed_base;
pub use pipeline::spec_feed_plan;
pub use pipeline::spec_plan;
pub use pipeline::spec_resolve_item;

use crate::instapaper::Credentials;

verus! {

/// The run configuration: the service credentials, the ledger log path, the
/// feed URLs, and the two switches the command line sets.
#[derive(Debug)]
pub struct Config {
    pub instapaper: Credentials,
    pub log_file: String,
    pub urls: Vec<String>,
    pub auto_add: bool,
    pub skip_download_errors: bool,
}

impl Config {
    /// A configuration as loaded from file: the two command-line switches
    /// start out off until the caller sets them.
    pub fn new(instapaper: Credentials, log_file: String, urls: Vec<String>) -> (c: Config)
        ensures
            c.instapaper == instapaper,
            c.log_file == log_file,
            c.urls == urls,
            !c.auto_add,
            !c.skip_download_errors,
    {
        Config { instapaper, log_file, urls, auto_add: false, skip_download_errors: false }
    }
}

} // verus!
