//! Resolution of the latest known upstream version of a software project.
//!
//! The crate turns an already-parsed key/value [`config::Config`] into one of
//! six resolution strategies (issue-tracker aggregator, GitHub, GitLab,
//! GitWeb, raw Git smart-HTTP, generic HTML page), describes the HTTP
//! request each strategy needs, and picks a single version string out of the
//! response.  Network traffic itself is left to the caller; everything that
//! decides, parses or ranks lives here.

pub mod checker;
pub mod config;
pub mod confline;
pub mod errors;
pub mod extract;
pub mod filter;
pub mod net;
pub mod pattern;
pub mod pkglist;
pub mod pktline;
pub mod strconv;
pub mod update;
pub mod vercmp;

use vstd::prelude::*;

verus! {

} // verus!
