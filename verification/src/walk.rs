//! The walk through a directory tree, as a machine that asks for one
//! directory at a time and never touches the file system itself.

use vstd::prelude::*;

use crate::entry::Directory;
use crate::entry::FileEntry;
use crate::entry::Node;
use crate::entry::NodeView;
use crate::entry::Probe;
use crate::entry::ProbeView;
use crate::entry::node_views;
use crate::error::outcome_view;
use crate::error::ErrorView;
use crate::error::FindError;
use crate::file_criteria::validate;
use crate::file_criteria::CriteriaView;
use crate::file_criteria::FindCriteria;
use crate::file_criteria::SIZE_BOUNDS_MESSAGE;
use crate::file_utils::accept;
use crate::file_utils::accepts;

verus! {

/// A walk that waits for a look at one path.
#[derive(Debug)]
pub struct Walk<'a> {
    /// The criteria of the search.
    criteria: &'a FindCriteria,
    /// The path that the walk waits for.
    awaited: String,
    /// Whether that path is the root of the search.
    at_root: bool,
    /// The entries still to visit; the last one comes next.
    pending: Vec<Node>,
    /// The paths of the files accepted so far.
    found: Vec<String>,
}

/// A walk as mathematical values.
pub struct WalkView {
    /// The criteria of the search.
    pub criteria: CriteriaView,
    /// The path that the walk waits for.
    pub awaited: Seq<char>,
    /// Whether that path is the root of the search.
    pub at_root: bool,
    /// The entries still to visit, in the order of the visit.
    pub pending: Seq<NodeView>,
    /// The paths of the files accepted so far.
    pub found: Seq<Seq<char>>,
}

/// What a walk does next.
#[derive(Debug)]
pub enum Step<'a> {
    /// Look at the path that the walk waits for, and hand the walk what the
    /// look gave.
    Probe(Walk<'a>),
    /// The search is over, with this result.
    Finished(Result<Vec<String>, FindError>),
}

/// What a walk does next, as mathematical values.
pub enum StepView {
    Probe(WalkView),
    Finished(Result<Seq<Seq<char>>, ErrorView>),
}

/// The entries of a stack in the order in which they leave it.
pub open spec fn agenda(stack: Seq<Node>) -> Seq<NodeView> {
    Seq::new(stack.len(), |i: int| stack[stack.len() - 1 - i]@)
}

impl<'a> View for Walk<'a> {
    type V = WalkView;

    closed spec fn view(&self) -> WalkView {
        WalkView {
            criteria: self.criteria@,
            awaited: self.awaited@,
            at_root: self.at_root,
            pending: agenda(self.pending@),
            found: self.found.deep_view(),
        }
    }
}

impl<'a> View for Step<'a> {
    type V = StepView;

    open spec fn view(&self) -> StepView {
        match self {
            Step::Probe(walk) => StepView::Probe(walk@),
            Step::Finished(result) => StepView::Finished(outcome_view(*result)),
        }
    }
}

/// The number of entries in a node and in all that is known below it.
pub open spec fn node_weight(node: NodeView) -> nat
    decreases node,
{
    match node {
        NodeView::Directory(directory) => match directory.content {
            Some(ProbeView::Listing(nodes)) => 1 + weight(nodes),
            _ => 1,
        },
        _ => 1,
    }
}

/// The number of entries in a listing and in all that is known below it.
pub open spec fn weight(nodes: Seq<NodeView>) -> nat
    decreases nodes,
{
    if nodes.len() == 0 {
        0
    } else {
        node_weight(nodes.first()) + weight(nodes.drop_first())
    }
}

/// The weight of two listings in a row is the sum of their weights.
pub proof fn lemma_weight_concat(front: Seq<NodeView>, back: Seq<NodeView>)
    ensures
        weight(front + back) == weight(front) + weight(back),
    decreases front.len(),
{
    if front.len() != 0 {
        assert((front + back).drop_first() =~= front.drop_first() + back);
        lemma_weight_concat(front.drop_first(), back);
    }
}

/// Visits the pending entries in order until one asks for a look at the file
/// system or none is left.
///
/// An accepted file whose path is text adds that path to `found`. A directory
/// counts only in a recursive search and only where its path is text: where
/// its listing is known, the entries of the listing are visited next, before
/// what was pending; where nobody has looked at it yet, the walk stops and
/// waits for the look; where the look gave no listing, it adds nothing.
/// Every other entry is passed over.
pub open spec fn drain(
    criteria: CriteriaView,
    pending: Seq<NodeView>,
    found: Seq<Seq<char>>,
) -> StepView
    decreases weight(pending),
    via drain_decreases
{
    if pending.len() == 0 {
        StepView::Finished(Ok(found))
    } else {
        let rest = pending.drop_first();
        match pending.first() {
            NodeView::File(file) => if accepts(file, criteria) && file.path is Some {
                drain(criteria, rest, found.push(file.path->0))
            } else {
                drain(criteria, rest, found)
            },
            NodeView::Directory(directory) => if criteria.recursive && directory.path is Some {
                match directory.content {
                    None => StepView::Probe(
                        WalkView {
                            criteria,
                            awaited: directory.path->0,
                            at_root: false,
                            pending: rest,
                            found,
                        },
                    ),
                    Some(ProbeView::Listing(nodes)) => drain(criteria, nodes + rest, found),
                    Some(_) => drain(criteria, rest, found),
                }
            } else {
                drain(criteria, rest, found)
            },
            _ => drain(criteria, rest, found),
        }
    }
}

#[via_fn]
proof fn drain_decreases(criteria: CriteriaView, pending: Seq<NodeView>, found: Seq<Seq<char>>) {
    if pending.len() != 0 {
        assert(weight(pending) == node_weight(pending.first()) + weight(pending.drop_first()));
        if let NodeView::Directory(directory) = pending.first() {
            if let Some(ProbeView::Listing(nodes)) = directory.content {
                lemma_weight_concat(nodes, pending.drop_first());
            }
        }
    }
}

impl WalkView {
    /// The walk before the look at the root.
    pub open spec fn at_start(path: Seq<char>, criteria: CriteriaView) -> WalkView {
        WalkView {
            criteria,
            awaited: path,
            at_root: true,
            pending: Seq::empty(),
            found: Seq::empty(),
        }
    }

    /// What the walk does once the look at the awaited path gave `probe`.
    ///
    /// A listing is visited before what was pending. A look that gave no
    /// listing ends the search with an error if the path is the root; below
    /// the root the directory adds nothing and the walk goes on.
    pub open spec fn step(self, probe: ProbeView) -> StepView {
        match probe {
            ProbeView::Listing(nodes) => drain(self.criteria, nodes + self.pending, self.found),
            _ => if self.at_root {
                StepView::Finished(Err(root_failure(probe, self.awaited)))
            } else {
                drain(self.criteria, self.pending, self.found)
            },
        }
    }
}

/// The error with which a search ends when the look at its root gave no listing.
pub open spec fn root_failure(probe: ProbeView, path: Seq<char>) -> ErrorView {
    match probe {
        ProbeView::Missing => ErrorView::NotFound(path),
        ProbeView::NotADirectory => ErrorView::NotADirectory(path),
        _ => ErrorView::Unreadable(path),
    }
}

/// What a search of `path` does first: it fails at once where the criteria
/// contradict themselves, and asks for a look at `path` otherwise.
pub open spec fn start_spec(path: Seq<char>, criteria: CriteriaView) -> StepView {
    if criteria.consistent() {
        StepView::Probe(WalkView::at_start(path, criteria))
    } else {
        StepView::Finished(Err(ErrorView::InvalidCriteria(SIZE_BOUNDS_MESSAGE@)))
    }
}

/// Putting an entry on a stack puts it at the head of the agenda.
proof fn lemma_agenda_push(stack: Seq<Node>, node: Node)
    ensures
        agenda(stack.push(node)) == seq![node@] + agenda(stack),
        agenda(stack.push(node)).first() == node@,
        agenda(stack.push(node)).drop_first() == agenda(stack),
{
}

/// Puts the entries of a listing on the stack so that they leave it in the
/// order of the listing, before what the stack held.
fn push_reversed(stack: &mut Vec<Node>, listing: Vec<Node>)
    ensures
        agenda(final(stack)@) == node_views(listing@) + agenda(old(stack)@),
{
    let mut left = listing;
    while left.len() > 0
        invariant
            node_views(left@) + agenda(stack@) == node_views(listing@) + agenda(old(stack)@),
        decreases left.len(),
    {
        let ghost below = stack@;
        let node = left.pop().unwrap();
        stack.push(node);
        proof {
            lemma_agenda_push(below, node);
        }
    }
}

/// Visits the pending entries until one asks for a look at the file system
/// or none is left.
fn advance<'a>(criteria: &'a FindCriteria, stack: Vec<Node>, so_far: Vec<String>) -> (step: Step<
    'a,
>)
    requires
        criteria@.consistent(),
    ensures
        step@ == drain(criteria@, agenda(stack@), so_far.deep_view()),
{
    let mut pending = stack;
    let mut found = so_far;
    loop
        invariant
            criteria@.consistent(),
            drain(criteria@, agenda(pending@), found.deep_view()) == drain(
                criteria@,
                agenda(stack@),
                so_far.deep_view(),
            ),
        decreases weight(agenda(pending@)),
    {
        let ghost before = pending@;
        let ghost paths = found.deep_view();
        let node = match pending.pop() {
            Some(node) => node,
            None => {
                return Step::Finished(Ok(found));
            },
        };
        proof {
            assert(before =~= pending@.push(node));
            lemma_agenda_push(pending@, node);
            assert(node_weight(node@) >= 1);
        }
        match node {
            Node::File(file) => {
                if accept(&file, criteria) {
                    let FileEntry { path, .. } = file;
                    if let Some(path) = path {
                        found.push(path);
                        assert(found.deep_view() =~= paths.push(path@));
                    }
                }
            },
            Node::Directory(directory) => {
                if criteria.recursive {
                    let Directory { path, content } = directory;
                    if let Some(path) = path {
                        match content {
                            None => {
                                return Step::Probe(
                                    Walk { criteria, awaited: path, at_root: false, pending, found },
                                );
                            },
                            Some(Probe::Listing(nodes)) => {
                                proof {
                                    lemma_weight_concat(node_views(nodes@), agenda(pending@));
                                }
                                push_reversed(&mut pending, nodes);
                            },
                            Some(_) => {},
                        }
                    }
                }
            },
            _ => {},
        }
    }
}

impl<'a> Walk<'a> {
    /// No walk has criteria that contradict themselves.
    #[verifier::type_invariant]
    spec fn validated(self) -> bool {
        self.criteria@.consistent()
    }

    /// The criteria of the search. They do not contradict themselves: a
    /// search with criteria that do never comes to a walk.
    pub fn criteria(&self) -> (criteria: &'a FindCriteria)
        ensures
            criteria@ == self@.criteria,
            criteria@.consistent(),
    {
        proof {
            use_type_invariant(self);
        }
        self.criteria
    }

    /// The path that the walk waits for a look at.
    pub fn path(&self) -> (path: &str)
        ensures
            path@ == self@.awaited,
    {
        self.awaited.as_str()
    }

    /// Goes on with the walk, given what the look at the awaited path gave.
    pub fn step(self, probe: Probe) -> (step: Step<'a>)
        ensures
            step@ == self@.step(probe@),
    {
        proof {
            use_type_invariant(&self);
        }
        let Walk { criteria, awaited, at_root, mut pending, found } = self;
        match probe {
            Probe::Listing(nodes) => {
                push_reversed(&mut pending, nodes);
            },
            Probe::Missing => {
                if at_root {
                    return Step::Finished(Err(FindError::NotFound(awaited)));
                }
            },
            Probe::NotADirectory => {
                if at_root {
                    return Step::Finished(Err(FindError::NotADirectory(awaited)));
                }
            },
            Probe::Unreadable => {
                if at_root {
                    return Step::Finished(Err(FindError::Unreadable(awaited)));
                }
            },
        }
        advance(criteria, pending, found)
    }
}

/// Begins a search of `path`. Nothing has been looked at when this returns.
pub fn start<'a>(path: &str, criteria: &'a FindCriteria) -> (step: Step<'a>)
    ensures
        step@ == start_spec(path@, criteria@),
{
    match validate(criteria) {
        Err(reason) => Step::Finished(Err(FindError::InvalidCriteria(reason))),
        Ok(()) => {
            let walk = Walk {
                criteria,
                awaited: path.to_string(),
                at_root: true,
                pending: Vec::new(),
                found: Vec::new(),
            };
            assert(walk@.pending =~= Seq::empty());
            assert(walk@.found =~= Seq::empty());
            Step::Probe(walk)
        },
    }
}

} // verus!
