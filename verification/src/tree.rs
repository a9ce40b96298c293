//! A directory tree held in memory, and its size.
//!
//! A [`Tree`] is what a walk would find if the filesystem stood still. Its
//! size is defined by recursion over the tree; [`calculate_size`] computes it with
//! the breadth-first walk of [`SizeWalker`], and is proved to agree.

use crate::walker::probe_children;
use crate::walker::recorded;
use crate::walker::Probe;
use crate::walker::SizeWalker;
use crate::walker::WalkerView;
use vstd::prelude::*;

verus! {

/// A file or a directory tree with known sizes.
#[derive(Debug)]
pub enum Tree {
    /// An entry that cannot be read. It counts for nothing.
    Unreadable,
    /// Something that is not a directory, with its size in bytes.
    File(u64),
    /// A directory with its children.
    Directory(Vec<Tree>),
}

/// The bytes of all the files in `tree`.
pub open spec fn tree_total(tree: Tree) -> nat
    decreases tree,
{
    match tree {
        Tree::Unreadable => 0,
        Tree::File(size) => size as nat,
        Tree::Directory(children) => forest_total(children@),
    }
}

/// The bytes of all the files in the trees of `forest`.
pub open spec fn forest_total(forest: Seq<Tree>) -> nat
    decreases forest,
{
    if forest.len() == 0 {
        0
    } else {
        forest_total(forest.drop_last()) + tree_total(forest.last())
    }
}

/// The number of entries in `tree`, itself included.
pub open spec fn tree_entries(tree: Tree) -> nat
    decreases tree,
{
    match tree {
        Tree::Directory(children) => 1 + forest_entries(children@),
        _ => 1,
    }
}

/// The number of entries in the trees of `forest`.
pub open spec fn forest_entries(forest: Seq<Tree>) -> nat
    decreases forest,
{
    if forest.len() == 0 {
        0
    } else {
        forest_entries(forest.drop_last()) + tree_entries(forest.last())
    }
}

/// What a walk finds when it reaches `tree`.
pub open spec fn probe_of(tree: Tree) -> Probe<Tree> {
    match tree {
        Tree::Unreadable => Probe::Unreadable,
        Tree::File(size) => Probe::File(size),
        Tree::Directory(children) => Probe::Directory(children),
    }
}

/// The total of two forests, one after the other, is the sum of their
/// totals; so is the number of their entries.
pub proof fn lemma_forest_concat(first: Seq<Tree>, rest: Seq<Tree>)
    ensures
        forest_total(first + rest) == forest_total(first) + forest_total(rest),
        forest_entries(first + rest) == forest_entries(first) + forest_entries(rest),
    decreases rest.len(),
{
    if rest.len() == 0 {
        assert(first + rest =~= first);
    } else {
        lemma_forest_concat(first, rest.drop_last());
        assert((first + rest).drop_last() =~= first + rest.drop_last());
    }
}

/// The total of a forest of one tree is the total of that tree.
pub proof fn lemma_forest_single(tree: Tree)
    ensures
        forest_total(seq![tree]) == tree_total(tree),
        forest_entries(seq![tree]) == tree_entries(tree),
{
    let empty = Seq::<Tree>::empty();
    assert(seq![tree].drop_last() =~= empty);
    assert(forest_total(empty) == 0);
    assert(forest_entries(empty) == 0);
}

/// Taking the tree at `index` out of a forest lowers the total by the total
/// of that tree, and the entries by its entries.
pub proof fn lemma_forest_remove(forest: Seq<Tree>, index: int)
    requires
        0 <= index < forest.len(),
    ensures
        forest_total(forest) == forest_total(forest.remove(index)) + tree_total(forest[index]),
        forest_entries(forest) == forest_entries(forest.remove(index)) + tree_entries(
            forest[index],
        ),
{
    let head = forest.take(index);
    let tail = forest.skip(index + 1);
    assert(forest =~= head + seq![forest[index]] + tail);
    assert(forest.remove(index) =~= head + tail);
    lemma_forest_single(forest[index]);
    lemma_forest_concat(head, seq![forest[index]]);
    lemma_forest_concat(head + seq![forest[index]], tail);
    lemma_forest_concat(head, tail);
}

/// The total of a forest does not depend on the order of its trees. The
/// queue of a walk and the listing of a directory are forests: in whatever
/// order entries are listed and visited, the same bytes are counted.
pub proof fn lemma_forest_total_any_order(first: Seq<Tree>, second: Seq<Tree>)
    requires
        first.to_multiset() == second.to_multiset(),
    ensures
        forest_total(first) == forest_total(second),
        forest_entries(first) == forest_entries(second),
    decreases first.len(),
{
    first.to_multiset_ensures();
    second.to_multiset_ensures();
    if first.len() == 0 {
        assert(second.len() == 0);
        assert(first =~= second);
    } else {
        let last = first.last();
        let index = first.len() - 1;
        assert(first.contains(last));
        assert(first.to_multiset().count(last) > 0);
        assert(second.to_multiset().count(last) > 0);
        assert(second.contains(last));
        let found = choose|i: int| 0 <= i < second.len() && second[i] == last;
        assert(first.remove(index) =~= first.drop_last());
        assert(first.drop_last().to_multiset() =~= second.remove(found).to_multiset());
        lemma_forest_total_any_order(first.drop_last(), second.remove(found));
        lemma_forest_remove(second, found);
    }
}

/// One step of a walk over trees in memory: the tree at the front of the
/// queue is taken and what it holds is recorded. A walk with nothing left to
/// visit stays as it is.
pub open spec fn visit(state: WalkerView<Tree>) -> WalkerView<Tree> {
    if state.pending.len() == 0 {
        state
    } else {
        recorded(
            WalkerView { pending: state.pending.drop_first(), total: state.total },
            probe_of(state.pending[0]),
        )
    }
}

/// The walk `state` after `steps` steps.
pub open spec fn walk(state: WalkerView<Tree>, steps: nat) -> WalkerView<Tree>
    decreases steps,
{
    if steps == 0 {
        state
    } else {
        visit(walk(state, (steps - 1) as nat))
    }
}

/// Two walks that take their steps in the order that `schedule` gives:
/// `true` is a step of the first walk, `false` a step of the second.
pub open spec fn walk_both(
    first: WalkerView<Tree>,
    second: WalkerView<Tree>,
    schedule: Seq<bool>,
) -> (WalkerView<Tree>, WalkerView<Tree>)
    decreases schedule.len(),
{
    if schedule.len() == 0 {
        (first, second)
    } else {
        let (a, b) = walk_both(first, second, schedule.drop_last());
        if schedule.last() {
            (visit(a), b)
        } else {
            (a, visit(b))
        }
    }
}

/// How many steps `schedule` gives to the walk named by `who`.
pub open spec fn turns(schedule: Seq<bool>, who: bool) -> nat
    decreases schedule.len(),
{
    if schedule.len() == 0 {
        0
    } else if schedule.last() == who {
        turns(schedule.drop_last(), who) + 1
    } else {
        turns(schedule.drop_last(), who)
    }
}

/// What a walk has counted and what it has still to count are together
/// what they were when it began: a step moves bytes from the queue to the
/// total and neither loses nor repeats any.
pub proof fn lemma_visit_keeps_sum(state: WalkerView<Tree>)
    requires
        state.total + forest_total(state.pending) <= u64::MAX,
    ensures
        visit(state).total + forest_total(visit(state).pending) == state.total + forest_total(
            state.pending,
        ),
        state.pending.len() > 0 ==> forest_entries(visit(state).pending) < forest_entries(
            state.pending,
        ),
{
    if state.pending.len() > 0 {
        let next = state.pending[0];
        lemma_forest_remove(state.pending, 0);
        assert(state.pending.remove(0) =~= state.pending.drop_first());
        lemma_forest_concat(state.pending.drop_first(), probe_children(probe_of(next)));
    }
}

/// However many steps a walk takes, what it has counted and what it has
/// still to count stay together what they were. Once nothing is left to
/// visit, the total is the size of everything that the walk began with.
pub proof fn lemma_walk_keeps_sum(state: WalkerView<Tree>, steps: nat)
    requires
        state.total + forest_total(state.pending) <= u64::MAX,
    ensures
        walk(state, steps).total + forest_total(walk(state, steps).pending) == state.total
            + forest_total(state.pending),
        walk(state, steps).pending.len() == 0 ==> walk(state, steps).total == state.total
            + forest_total(state.pending),
    decreases steps,
{
    if steps > 0 {
        lemma_walk_keeps_sum(state, (steps - 1) as nat);
        lemma_visit_keeps_sum(walk(state, (steps - 1) as nat));
    }
    assert(forest_total(Seq::<Tree>::empty()) == 0);
    if walk(state, steps).pending.len() == 0 {
        assert(walk(state, steps).pending =~= Seq::<Tree>::empty());
    }
}

/// A walk ends: after as many steps as its queue holds entries, nothing is
/// left to visit.
pub proof fn lemma_walk_ends(state: WalkerView<Tree>)
    requires
        state.total + forest_total(state.pending) <= u64::MAX,
    ensures
        walk(state, forest_entries(state.pending)).pending.len() == 0,
{
    lemma_walk_runs_down(state, forest_entries(state.pending));
    let end = walk(state, forest_entries(state.pending));
    if end.pending.len() > 0 {
        lemma_forest_remove(end.pending, 0);
    }
}

proof fn lemma_walk_runs_down(state: WalkerView<Tree>, steps: nat)
    requires
        state.total + forest_total(state.pending) <= u64::MAX,
        steps <= forest_entries(state.pending),
    ensures
        forest_entries(walk(state, steps).pending) + steps <= forest_entries(state.pending),
    decreases steps,
{
    if steps > 0 {
        let before = walk(state, (steps - 1) as nat);
        lemma_walk_runs_down(state, (steps - 1) as nat);
        lemma_walk_keeps_sum(state, (steps - 1) as nat);
        lemma_visit_keeps_sum(before);
        if before.pending.len() == 0 {
            assert(before.pending =~= Seq::<Tree>::empty());
            assert(forest_entries(before.pending) == 0);
        }
    }
}

/// Two walks do not touch each other. In whatever order their steps are
/// taken, each walk is where it would be had it taken its own steps alone.
pub proof fn lemma_walks_are_independent(
    first: WalkerView<Tree>,
    second: WalkerView<Tree>,
    schedule: Seq<bool>,
)
    ensures
        walk_both(first, second, schedule) == (
            walk(first, turns(schedule, true)),
            walk(second, turns(schedule, false)),
        ),
    decreases schedule.len(),
{
    if schedule.len() > 0 {
        lemma_walks_are_independent(first, second, schedule.drop_last());
    }
}

/// Looks at `tree` as a walk would.
pub fn probe(tree: Tree) -> (found: Probe<Tree>)
    ensures
        found == probe_of(tree),
{
    match tree {
        Tree::Unreadable => Probe::Unreadable,
        Tree::File(size) => Probe::File(size),
        Tree::Directory(children) => Probe::Directory(children),
    }
}

/// The size of `tree`, computed by a breadth-first walk.
///
/// The result is the sum of the sizes of all the files in the tree. It is a
/// `u64`, so that sum must fit.
pub fn calculate_size(tree: Tree) -> (total: u64)
    requires
        tree_total(tree) <= u64::MAX,
    ensures
        total == tree_total(tree),
{
    let mut walker = SizeWalker::new(tree);
    proof {
        lemma_forest_single(tree);
    }
    loop
        invariant
            walker@.total + forest_total(walker@.pending) == tree_total(tree),
            tree_total(tree) <= u64::MAX,
        ensures
            walker@.total == tree_total(tree),
        decreases forest_entries(walker@.pending),
    {
        let ghost pending = walker@.pending;
        match walker.next_path() {
            None => {
                break ;
            },
            Some(next) => {
                proof {
                    lemma_forest_remove(pending, 0);
                    assert(pending.remove(0) =~= pending.drop_first());
                    lemma_forest_concat(pending.drop_first(), probe_children(probe_of(next)));
                }
                walker.record(probe(next));
            },
        }
    }
    walker.total()
}

/// The size of `tree`, computed by a breadth-first walk, or `None` where
/// the sum of the sizes does not fit in a `u64`.
pub fn checked_calculate_size(tree: Tree) -> (total: Option<u64>)
    ensures
        tree_total(tree) <= u64::MAX ==> total == Some(tree_total(tree) as u64),
        tree_total(tree) > u64::MAX ==> total is None,
{
    let mut walker = SizeWalker::new(tree);
    proof {
        lemma_forest_single(tree);
    }
    loop
        invariant
            walker@.total + forest_total(walker@.pending) == tree_total(tree),
        ensures
            walker@.total == tree_total(tree),
        decreases forest_entries(walker@.pending),
    {
        let ghost pending = walker@.pending;
        match walker.next_path() {
            None => {
                break ;
            },
            Some(next) => {
                proof {
                    lemma_forest_remove(pending, 0);
                    assert(pending.remove(0) =~= pending.drop_first());
                    lemma_forest_concat(
                        pending.drop_first(),
                        probe_children(probe_of(next)),
                    );
                }
                let found = probe(next);
                if let Probe::File(size) = found {
                    if walker.total().checked_add(size).is_none() {
                        return None;
                    }
                }
                walker.record(found);
            },
        }
    }
    Some(walker.total())
}

} // verus!
