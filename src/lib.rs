//! Link checking for generated HTML documentation: classification of link
//! targets, path resolution, extraction of links and anchors, per-link
//! verdicts and a shared store of external reachability results.
use vstd::prelude::*;

pub mod classify;
pub mod path;
pub mod extract;
pub mod cache;
pub mod check;
pub mod report;
pub mod laws;
pub mod layout;

verus! {

} // verus!
