//! Waiting for regions to update, one after another.
//!
//! The operator lists regions in a file. `precursor` and `input` read that
//! file, in either of its two formats, into entries. `resolve` looks each
//! entry's region up and drops what cannot be waited on; `schedule` puts the
//! rest in firing order; `poll` says when a region has updated; `notify` and
//! `clock` build what is sent and shown. `watcher` ties these into one state
//! machine that is driven by the answers of the lookup service. `pattern`
//! and `text` hold the text handling underneath, `api` the service's
//! addresses.

pub mod api;
pub mod clock;
pub mod input;
pub mod notify;
pub mod pattern;
pub mod poll;
pub mod precursor;
pub mod resolve;
pub mod schedule;
pub mod text;
pub mod watcher;
