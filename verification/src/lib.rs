use vstd::prelude::*;

pub mod text;
pub mod grooming;
pub mod model;
pub mod agile;
pub mod ordering;
pub mod ids;
pub mod board;
pub mod analytics;
pub mod clock;
pub mod cycle_time;
pub mod devex;
pub mod merge;
pub mod release_notes;
pub mod webhooks;
pub mod gitlab;
pub mod git_refs;
pub mod streams;

verus! {

} // verus!
