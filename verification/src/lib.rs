//! Searching a directory tree for the files that meet a set of criteria.
//!
//! The library never touches the file system. [`find`] searches a tree that
//! is held in memory; [`walk::start`] and [`walk::Walk::step`] search a tree
//! that the caller looks at one directory at a time, as the walk asks.

use vstd::prelude::*;

use crate::entry::Probe;
use crate::entry::ProbeView;
use crate::error::outcome_view;
use crate::error::FindError;
use crate::file_criteria::FindCriteria;
use crate::search::closing;
use crate::search::lemma_first_step_matches;
use crate::search::lemma_step_matches;
use crate::search::remaining;
use crate::search::search_result;
use crate::walk::start;
use crate::walk::Step;
use crate::walk::StepView;

pub mod entry;
pub mod error;
pub mod file_criteria;
pub mod file_utils;
pub mod search;
pub mod walk;

verus! {

/// Searches the directory tree `root`, which a look at `path` gave, for the
/// files that meet the criteria, and returns their paths in the order of a
/// depth-first walk: the entries of a directory in the order of its listing,
/// and what a subdirectory holds at the place of the subdirectory.
///
/// The search fails where the criteria contradict themselves, and where
/// `root` is no listing. Below the root nothing fails: a directory that could
/// not be listed, or that the tree holds no look at, adds nothing.
pub fn find(path: &str, root: Probe, find_criteria: &FindCriteria) -> (result: Result<
    Vec<String>,
    FindError,
>)
    ensures
        outcome_view(result) == search_result(path@, root@, find_criteria@),
{
    let walk = match start(path, find_criteria) {
        Step::Finished(result) => {
            return result;
        },
        Step::Probe(walk) => walk,
    };
    proof {
        lemma_first_step_matches(path@, root@, find_criteria@);
    }
    let mut step = walk.step(root);
    loop
        invariant
            closing(step@) == search_result(path@, root@, find_criteria@),
            step@ matches StepView::Probe(walk) ==> !walk.at_root,
        decreases remaining(step@),
    {
        match step {
            Step::Finished(result) => {
                return result;
            },
            Step::Probe(walk) => {
                proof {
                    lemma_step_matches(walk@, ProbeView::Missing);
                }
                step = walk.step(Probe::Missing);
            },
        }
    }
}

} // verus!
