//! What a search finds, stated over the tree itself, and the proof that the
//! walk finds exactly that.

use vstd::prelude::*;

use crate::entry::DirectoryView;
use crate::entry::NodeView;
use crate::entry::ProbeView;
use crate::error::ErrorView;
use crate::file_criteria::CriteriaView;
use crate::file_criteria::SIZE_BOUNDS_MESSAGE;
use crate::file_utils::accepts;
use crate::walk::drain;
use crate::walk::lemma_weight_concat;
use crate::walk::node_weight;
use crate::walk::root_failure;
use crate::walk::start_spec;
use crate::walk::weight;
use crate::walk::StepView;
use crate::walk::WalkView;

verus! {

/// The paths that a search finds in one entry.
///
/// A regular file gives its path where the criteria accept it and the path is
/// text. A directory gives what its listing gives, in a recursive search and
/// where its path is text; one that could not be listed, or that nobody has
/// looked at, gives nothing. No other entry gives anything.
pub open spec fn node_matches(node: NodeView, criteria: CriteriaView) -> Seq<Seq<char>>
    decreases node,
{
    match node {
        NodeView::File(file) => if accepts(file, criteria) && file.path is Some {
            seq![file.path->0]
        } else {
            Seq::empty()
        },
        NodeView::Directory(directory) => if criteria.recursive && directory.path is Some {
            match directory.content {
                Some(probe) => probe_matches(probe, criteria),
                None => Seq::empty(),
            }
        } else {
            Seq::empty()
        },
        _ => Seq::empty(),
    }
}

/// The paths that a search finds in what a look at a directory gave: those in
/// the listing, if it gave one.
pub open spec fn probe_matches(probe: ProbeView, criteria: CriteriaView) -> Seq<Seq<char>>
    decreases probe,
{
    match probe {
        ProbeView::Listing(nodes) => listing_matches(nodes, criteria),
        _ => Seq::empty(),
    }
}

/// The paths that a search finds in a listing: what its first entry gives,
/// then what the entries after it give.
pub open spec fn listing_matches(nodes: Seq<NodeView>, criteria: CriteriaView) -> Seq<Seq<char>>
    decreases nodes,
{
    if nodes.len() == 0 {
        Seq::empty()
    } else {
        node_matches(nodes.first(), criteria) + listing_matches(nodes.drop_first(), criteria)
    }
}

/// The result of a search of `path`, where a look at `path` gave `root`.
///
/// Criteria that contradict themselves fail the search whatever the root is.
/// Otherwise a root that is no listing fails it, and a listing gives the
/// paths found in it.
pub open spec fn search_result(path: Seq<char>, root: ProbeView, criteria: CriteriaView) -> Result<
    Seq<Seq<char>>,
    ErrorView,
> {
    if !criteria.consistent() {
        Err(ErrorView::InvalidCriteria(SIZE_BOUNDS_MESSAGE@))
    } else {
        match root {
            ProbeView::Listing(nodes) => Ok(listing_matches(nodes, criteria)),
            _ => Err(root_failure(root, path)),
        }
    }
}

/// The paths of the accepted regular files that stand in the listing itself,
/// in its order.
pub open spec fn direct_matches(nodes: Seq<NodeView>, criteria: CriteriaView) -> Seq<Seq<char>>
    decreases nodes.len(),
{
    if nodes.len() == 0 {
        Seq::empty()
    } else {
        let here = match nodes.first() {
            NodeView::File(file) => if accepts(file, criteria) && file.path is Some {
                seq![file.path->0]
            } else {
                Seq::empty()
            },
            _ => Seq::empty(),
        };
        here + direct_matches(nodes.drop_first(), criteria)
    }
}

/// The path of every regular file in an entry and below it, as far as paths
/// are text and directories are listed.
pub open spec fn node_files(node: NodeView) -> Seq<Seq<char>>
    decreases node,
{
    match node {
        NodeView::File(file) => if file.path is Some {
            seq![file.path->0]
        } else {
            Seq::empty()
        },
        NodeView::Directory(directory) => if directory.path is Some {
            match directory.content {
                Some(ProbeView::Listing(nodes)) => listing_files(nodes),
                _ => Seq::empty(),
            }
        } else {
            Seq::empty()
        },
        _ => Seq::empty(),
    }
}

/// The path of every regular file in a listing and below it, as far as paths
/// are text and directories are listed.
pub open spec fn listing_files(nodes: Seq<NodeView>) -> Seq<Seq<char>>
    decreases nodes,
{
    if nodes.len() == 0 {
        Seq::empty()
    } else {
        node_files(nodes.first()) + listing_files(nodes.drop_first())
    }
}

/// A search of a path at which nothing exists fails and names the path,
/// whatever the criteria, as long as they do not contradict themselves.
pub proof fn lemma_missing_root_is_not_found(path: Seq<char>, criteria: CriteriaView)
    requires
        criteria.consistent(),
    ensures
        search_result(path, ProbeView::Missing, criteria) == Err::<Seq<Seq<char>>, ErrorView>(
            ErrorView::NotFound(path),
        ),
{
}

/// A search of a path that is no directory fails and names the path,
/// whatever the criteria, as long as they do not contradict themselves.
pub proof fn lemma_file_root_is_not_a_directory(path: Seq<char>, criteria: CriteriaView)
    requires
        criteria.consistent(),
    ensures
        search_result(path, ProbeView::NotADirectory, criteria) == Err::<
            Seq<Seq<char>>,
            ErrorView,
        >(ErrorView::NotADirectory(path)),
{
}

/// In a search that does not descend, a listing gives the accepted regular
/// files that stand in it and nothing else.
pub proof fn lemma_flat_matches_are_direct(nodes: Seq<NodeView>, criteria: CriteriaView)
    requires
        !criteria.recursive,
    ensures
        listing_matches(nodes, criteria) == direct_matches(nodes, criteria),
    decreases nodes.len(),
{
    if nodes.len() != 0 {
        lemma_flat_matches_are_direct(nodes.drop_first(), criteria);
        match nodes.first() {
            NodeView::File(file) => {
                assert(node_matches(nodes.first(), criteria) == if accepts(file, criteria)
                    && file.path is Some {
                    seq![file.path->0]
                } else {
                    Seq::empty()
                });
            },
            _ => {
                assert(node_matches(nodes.first(), criteria) == Seq::<Seq<char>>::empty());
            },
        }
    }
}

/// A search that does not descend finds the accepted regular files that
/// stand in the root directory itself, and nothing else, whatever the
/// subdirectories hold.
pub proof fn lemma_flat_search_stays_in_root(
    path: Seq<char>,
    nodes: Seq<NodeView>,
    criteria: CriteriaView,
)
    requires
        criteria.consistent(),
        !criteria.recursive,
    ensures
        search_result(path, ProbeView::Listing(nodes), criteria) == Ok::<
            Seq<Seq<char>>,
            ErrorView,
        >(direct_matches(nodes, criteria)),
{
    lemma_flat_matches_are_direct(nodes, criteria);
}

/// With criteria that descend and set no filter, a listing gives every
/// regular file in it and below it.
pub proof fn lemma_unfiltered_matches_are_all(nodes: Seq<NodeView>)
    ensures
        listing_matches(nodes, CriteriaView::unfiltered(true)) == listing_files(nodes),
    decreases nodes,
{
    if nodes.len() != 0 {
        lemma_unfiltered_matches_are_all(nodes.drop_first());
        if let NodeView::Directory(directory) = nodes.first() {
            if let Some(ProbeView::Listing(below)) = directory.content {
                lemma_unfiltered_matches_are_all(below);
            }
        }
        assert(node_matches(nodes.first(), CriteriaView::unfiltered(true)) == node_files(
            nodes.first(),
        ));
    }
}

/// A search that descends and sets no filter finds every regular file of the
/// tree below the root.
pub proof fn lemma_unfiltered_search_finds_all(path: Seq<char>, nodes: Seq<NodeView>)
    ensures
        search_result(path, ProbeView::Listing(nodes), CriteriaView::unfiltered(true)) == Ok::<
            Seq<Seq<char>>,
            ErrorView,
        >(listing_files(nodes)),
{
    lemma_unfiltered_matches_are_all(nodes);
}

/// The result of a walk in which no directory that is still to be looked at
/// gives anything.
pub open spec fn closing(step: StepView) -> Result<Seq<Seq<char>>, ErrorView> {
    match step {
        StepView::Finished(result) => result,
        StepView::Probe(walk) => Ok(walk.found + listing_matches(walk.pending, walk.criteria)),
    }
}

/// A bound on the looks that a walk can still ask for.
pub open spec fn remaining(step: StepView) -> nat {
    match step {
        StepView::Finished(_) => 0,
        StepView::Probe(walk) => weight(walk.pending) + 1,
    }
}

/// Two listings in a row give what the first gives, then what the second gives.
pub proof fn lemma_matches_concat(front: Seq<NodeView>, back: Seq<NodeView>, criteria: CriteriaView)
    ensures
        listing_matches(front + back, criteria) == listing_matches(front, criteria)
            + listing_matches(back, criteria),
    decreases front.len(),
{
    if front.len() != 0 {
        assert((front + back).drop_first() =~= front.drop_first() + back);
        lemma_matches_concat(front.drop_first(), back, criteria);
    }
}

/// The visit is right: visiting the pending entries adds to what was found
/// exactly what the tree holds for them, in order. Where the walk stops to
/// wait for a look at a directory, it has kept the criteria, it is below the
/// root, and less is pending than before.
pub proof fn lemma_drain_matches(
    criteria: CriteriaView,
    pending: Seq<NodeView>,
    found: Seq<Seq<char>>,
)
    ensures
        closing(drain(criteria, pending, found)) == Ok::<Seq<Seq<char>>, ErrorView>(
            found + listing_matches(pending, criteria),
        ),
        drain(criteria, pending, found) matches StepView::Probe(walk) ==> {
            &&& walk.criteria == criteria
            &&& !walk.at_root
            &&& weight(walk.pending) < weight(pending)
        },
    decreases weight(pending),
{
    if pending.len() != 0 {
        let rest = pending.drop_first();
        let here = node_matches(pending.first(), criteria);
        let after = listing_matches(rest, criteria);
        assert(node_weight(pending.first()) >= 1);
        match pending.first() {
            NodeView::File(file) if accepts(file, criteria) && file.path is Some => {
                lemma_drain_matches(criteria, rest, found.push(file.path->0));
                assert(found.push(file.path->0) + after =~= found + (here + after));
            },
            NodeView::Directory(directory) if criteria.recursive && directory.path is Some => {
                match directory.content {
                    // The walk stops here, with `rest` pending.
                    None => {},
                    Some(ProbeView::Listing(nodes)) => {
                        lemma_weight_concat(nodes, rest);
                        lemma_matches_concat(nodes, rest, criteria);
                        lemma_drain_matches(criteria, nodes + rest, found);
                    },
                    Some(_) => {
                        lemma_drain_matches(criteria, rest, found);
                    },
                }
            },
            _ => {
                lemma_drain_matches(criteria, rest, found);
            },
        }
    }
}

/// The first step is right: where the criteria do not contradict themselves,
/// a search begins with a look at its root, and what the look gave decides
/// the result as far as the tree is known. A walk that goes on from there has
/// kept the criteria and is below the root.
pub proof fn lemma_first_step_matches(path: Seq<char>, root: ProbeView, criteria: CriteriaView)
    requires
        criteria.consistent(),
    ensures
        start_spec(path, criteria) == StepView::Probe(WalkView::at_start(path, criteria)),
        closing(WalkView::at_start(path, criteria).step(root)) == search_result(
            path,
            root,
            criteria,
        ),
        WalkView::at_start(path, criteria).step(root) matches StepView::Probe(walk) ==> {
            &&& walk.criteria == criteria
            &&& !walk.at_root
        },
{
    let walk = WalkView::at_start(path, criteria);
    if let ProbeView::Listing(nodes) = root {
        lemma_drain_matches(criteria, nodes, walk.found);
    }
}

/// Every later step is right: below the root, a step adds to the result
/// what the look gave, and nothing else. A walk that goes on from there has
/// kept the criteria and is below the root; where the look gave no listing,
/// less is pending than before.
pub proof fn lemma_step_matches(walk: WalkView, probe: ProbeView)
    requires
        !walk.at_root,
    ensures
        closing(walk.step(probe)) == Ok::<Seq<Seq<char>>, ErrorView>(
            walk.found + (probe_matches(probe, walk.criteria) + listing_matches(
                walk.pending,
                walk.criteria,
            )),
        ),
        walk.step(probe) matches StepView::Probe(next) ==> {
            &&& next.criteria == walk.criteria
            &&& !next.at_root
            &&& probe !is Listing ==> weight(next.pending) < weight(walk.pending)
        },
{
    match probe {
        ProbeView::Listing(nodes) => {
            lemma_matches_concat(nodes, walk.pending, walk.criteria);
            lemma_drain_matches(walk.criteria, nodes + walk.pending, walk.found);
        },
        _ => {
            lemma_drain_matches(walk.criteria, walk.pending, walk.found);
        },
    }
}

/// A look may come late: a walk that comes to a directory that nobody has
/// looked at stops and waits for a look at its path, and once it is handed
/// what the look gave, it goes on exactly as if the directory had come with
/// that content.
pub proof fn lemma_look_can_wait(
    criteria: CriteriaView,
    path: Seq<char>,
    probe: ProbeView,
    rest: Seq<NodeView>,
    found: Seq<Seq<char>>,
)
    requires
        criteria.recursive,
    ensures
        ({
            let unseen = NodeView::Directory(DirectoryView { path: Some(path), content: None });
            let seen = NodeView::Directory(
                DirectoryView { path: Some(path), content: Some(probe) },
            );
            &&& drain(criteria, seq![unseen] + rest, found) matches StepView::Probe(walk)
            &&& walk.awaited == path
            &&& walk.step(probe) == drain(criteria, seq![seen] + rest, found)
        }),
{
    let unseen = NodeView::Directory(DirectoryView { path: Some(path), content: None });
    let seen = NodeView::Directory(DirectoryView { path: Some(path), content: Some(probe) });
    assert((seq![unseen] + rest).drop_first() =~= rest);
    assert((seq![seen] + rest).drop_first() =~= rest);
}

} // verus!
