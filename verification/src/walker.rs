//! Best-effort size accounting over a file or a directory tree.
//!
//! The walk is breadth-first over an explicit queue of pending paths. This
//! module decides what to visit next and keeps the running total; the caller
//! looks at the filesystem. It takes a path from [`SizeWalker::next_path`],
//! finds out what is there, and hands the answer to [`SizeWalker::record`].
//! A path that cannot be read counts for nothing and never ends the walk.

use std::collections::VecDeque;
use vstd::prelude::*;

verus! {

/// What was found at one path, read without following symbolic links.
#[derive(Debug)]
pub enum Probe<P> {
    /// The path could not be read.
    Unreadable,
    /// Something that is not a directory, with its size in bytes. A symbolic
    /// link counts with the size of the link itself.
    File(u64),
    /// A directory, with its immediate children. A directory that could not
    /// be listed has none; an entry that could not be read is left out.
    Directory(Vec<P>),
}

/// A walk as contracts see it.
pub struct WalkerView<P> {
    /// The paths still to visit, the next one first.
    pub pending: Seq<P>,
    /// The bytes counted so far.
    pub total: u64,
}

/// The state of one walk. Each walk owns its queue; two walks share nothing.
#[derive(Debug)]
pub struct SizeWalker<P> {
    queue: VecDeque<P>,
    total: u64,
}

impl<P> View for SizeWalker<P> {
    type V = WalkerView<P>;

    closed spec fn view(&self) -> WalkerView<P> {
        WalkerView { pending: self.queue@, total: self.total }
    }
}

/// The bytes that one probe adds to the total.
pub open spec fn probe_bytes<P>(probe: Probe<P>) -> nat {
    match probe {
        Probe::File(size) => size as nat,
        _ => 0,
    }
}

/// The paths that one probe adds to the queue, in order.
pub open spec fn probe_children<P>(probe: Probe<P>) -> Seq<P> {
    match probe {
        Probe::Directory(children) => children@,
        _ => Seq::empty(),
    }
}

/// The walk that follows `state` once `probe` was recorded: the bytes of a
/// file are added to the total, the children of a directory join the queue
/// at its back, and a path that could not be read changes nothing.
pub open spec fn recorded<P>(state: WalkerView<P>, probe: Probe<P>) -> WalkerView<P> {
    WalkerView {
        pending: state.pending + probe_children(probe),
        total: (state.total + probe_bytes(probe)) as u64,
    }
}

impl<P> SizeWalker<P> {
    /// A walk that has `root` to visit and has counted nothing.
    pub fn new(root: P) -> (walker: SizeWalker<P>)
        ensures
            walker@.pending == seq![root],
            walker@.total == 0,
    {
        let mut queue: VecDeque<P> = VecDeque::new();
        queue.push_back(root);
        assert(queue@ =~= seq![root]);
        SizeWalker { queue, total: 0 }
    }

    /// The bytes counted so far.
    pub fn total(&self) -> (total: u64)
        ensures
            total == self@.total,
    {
        self.total
    }

    /// Whether nothing is left to visit.
    pub fn is_done(&self) -> (done: bool)
        ensures
            done == (self@.pending.len() == 0),
    {
        self.queue.len() == 0
    }

    /// Takes the next path to visit from the front of the queue, or returns
    /// `None` where the walk is over.
    pub fn next_path(&mut self) -> (path: Option<P>)
        ensures
            final(self)@.total == old(self)@.total,
            old(self)@.pending.len() == 0 ==> path is None,
            old(self)@.pending.len() == 0 ==> final(self)@.pending == old(self)@.pending,
            old(self)@.pending.len() > 0 ==> path == Some(old(self)@.pending[0]),
            old(self)@.pending.len() > 0 ==> final(self)@.pending == old(self)@.pending.drop_first(),
    {
        let path = self.queue.pop_front();
        proof {
            if old(self)@.pending.len() > 0 {
                assert(self.queue@ =~= old(self)@.pending.drop_first());
            }
        }
        path
    }

    /// Records what was found at the path taken last.
    ///
    /// The total is a `u64`: the bytes of a file must fit on top of it.
    pub fn record(&mut self, probe: Probe<P>)
        requires
            old(self)@.total + probe_bytes(probe) <= u64::MAX,
        ensures
            final(self)@ == recorded(old(self)@, probe),
    {
        match probe {
            Probe::Unreadable => {
                assert(self.queue@ + Seq::<P>::empty() =~= self.queue@);
            },
            Probe::File(size) => {
                self.total = self.total + size;
                assert(self.queue@ + Seq::<P>::empty() =~= self.queue@);
            },
            Probe::Directory(children) => {
                let ghost all = children@;
                let ghost before = self.queue@;
                for child in it: children
                    invariant
                        self.total == old(self).total,
                        it.seq() == all,
                        self.queue@ == before + all.take(it.index() as int),
                {
                    self.queue.push_back(child);
                    assert(self.queue@ =~= before + all.take(it.index() + 1));
                }
                assert(all.take(all.len() as int) =~= all);
            },
        }
    }
}

} // verus!
