//! Shared ownership of a sandbox and the life of a background task.
//!
//! A sandbox's internals are shared by reference counting: handles and
//! background tasks retain and release shares, and the removal request is
//! issued exactly when the last share is released. A background task owns
//! its process handle until it is waited on once or abandoned; an
//! abandoned task's process is force-terminated.

use vstd::prelude::*;

verus! {

/// The number of live handles (sandbox handles and background tasks)
/// sharing one sandbox's internals. A sandbox starts with one handle.
pub struct ShareCount {
    pub count: usize,
}

impl ShareCount {
    /// A freshly created sandbox is referenced by exactly one handle.
    pub fn new() -> (s: ShareCount)
        ensures
            s.count == 1,
    {
        ShareCount { count: 1 }
    }

    /// A new handle begins sharing the sandbox: a clone of a handle, or
    /// a background task retaining the internals.
    pub fn retain(&mut self)
        requires
            old(self).count >= 1,
            old(self).count < usize::MAX,
        ensures
            final(self).count == old(self).count + 1,
    {
        self.count = self.count + 1;
    }

    /// A handle stops sharing the sandbox. Returns whether it was the
    /// last one — whether the caller must now issue the (fire-and-forget)
    /// removal request for the sandbox.
    pub fn release(&mut self) -> (remove: bool)
        requires
            old(self).count >= 1,
        ensures
            final(self).count == old(self).count - 1,
            remove <==> final(self).count == 0,
    {
        self.count = self.count - 1;
        self.count == 0
    }
}

/// One event in the life of a sandbox's share count.
pub enum ShareOp {
    Retain,
    Release,
}

/// The share count after a history of retains and releases, starting
/// from the single handle the sandbox is created with.
pub open spec fn count_after(ops: Seq<ShareOp>) -> int
    decreases ops.len(),
{
    if ops.len() == 0 {
        1
    } else {
        count_after(ops.drop_last()) + (if ops.last() is Retain {
            1int
        } else {
            -1int
        })
    }
}

/// A history is well-formed when every event is performed by a live
/// handle: the count before each event is at least one.
pub open spec fn valid_history(ops: Seq<ShareOp>) -> bool {
    forall|i: int| 0 <= i < ops.len() ==> count_after(#[trigger] ops.take(i)) >= 1
}

/// How many events of the history released the last share — that is,
/// how many removal requests the history triggers.
pub open spec fn removals(ops: Seq<ShareOp>) -> int
    decreases ops.len(),
{
    if ops.len() == 0 {
        0
    } else {
        removals(ops.drop_last()) + (if ops.last() is Release && count_after(ops) == 0 {
            1int
        } else {
            0int
        })
    }
}

/// Over any well-formed history the sandbox's removal is triggered at
/// most once, and exactly once when the last handle has gone — however
/// many handles were cloned and in whatever order they were released.
pub proof fn lemma_removal_exactly_once(ops: Seq<ShareOp>)
    requires
        valid_history(ops),
    ensures
        count_after(ops) >= 0,
        0 <= removals(ops) <= 1,
        removals(ops) == 1 <==> count_after(ops) == 0,
    decreases ops.len(),
{
    if ops.len() > 0 {
        let pre = ops.drop_last();
        assert forall|i: int| 0 <= i < pre.len() implies count_after(#[trigger] pre.take(i))
            >= 1 by {
            assert(pre.take(i) =~= ops.take(i));
            assert(count_after(ops.take(i)) >= 1);
        }
        lemma_removal_exactly_once(pre);
        assert(ops.take(ops.len() - 1) =~= pre);
        assert(count_after(pre) >= 1);
    }
}

/// Abandoning a background task never tears down a sandbox that another
/// handle still references: a release out of a shared state leaves the
/// count positive, so the history gains no removal.
pub proof fn lemma_abandon_keeps_shared_sandbox(ops: Seq<ShareOp>)
    requires
        ops.len() > 0,
        ops.last() is Release,
        count_after(ops.drop_last()) >= 2,
    ensures
        removals(ops) == removals(ops.drop_last()),
        count_after(ops) >= 1,
{
}

/// A background task started inside a sandbox. It owns the underlying
/// process handle until that handle is consumed — by waiting exactly
/// once — or until the task is abandoned, which force-terminates the
/// process.
pub struct TaskState {
    pub running: bool,
}

impl TaskState {
    /// A freshly spawned task owns its process handle.
    pub fn spawn() -> (t: TaskState)
        ensures
            t.running,
    {
        TaskState { running: true }
    }

    /// Consumes the process handle to await completion. Allowed only
    /// once, and only on a task that still owns its handle.
    pub fn wait(&mut self)
        requires
            old(self).running,
        ensures
            !final(self).running,
    {
        self.running = false;
    }

    /// Abandons the task: reports whether the underlying process must be
    /// force-terminated, which is the case exactly when the handle was
    /// never consumed by waiting.
    pub fn abandon(&mut self) -> (kill: bool)
        ensures
            kill == old(self).running,
            !final(self).running,
    {
        let kill = self.running;
        self.running = false;
        kill
    }
}

} // verus!
