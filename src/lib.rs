use vstd::prelude::*;

pub mod buffer_manager;
pub mod o_ptr;
pub mod optimistic_error;
pub mod seqlock;

pub use buffer_manager::{SimpleBm, SimpleGuardO, SimpleGuardS, SimpleGuardX};
pub use o_ptr::{Frame, OPtr, OSlice};
pub use optimistic_error::OptimisticError;
pub use seqlock::{Attempt, LockMisuse, SeqLock, VersionFilter};

verus! {

/// A snapshot of a lock's version field, taken at an optimistic read point.
#[derive(PartialEq, Eq, Structural, Clone, Copy, Debug)]
pub struct OlcVersion {
    pub x: u64,
}

/// The index of one frame of a pool.
#[derive(PartialEq, Eq, Structural, Clone, Copy, Debug)]
pub struct PageId {
    pub x: u64,
}

} // verus!

verus! {

/// What every guard offers: acquisition of a page of a pool in one pass,
/// its page id, and a view of its frame.
pub trait BufferManagerGuard<'bm>: Sized {
    /// The page this guard is for.
    spec fn pid(&self) -> nat;

    /// The pool this guard belongs to.
    spec fn pool(&self) -> &'bm SimpleBm;

    /// Whether the page was written through the guard; only an exclusive
    /// guard ever writes.
    spec fn written(&self) -> bool;

    /// One pass of acquiring `page_id`; it is never refused.
    fn try_acquire(bm: &'bm SimpleBm, page_id: PageId) -> (r: seqlock::Attempt<Self>)
        requires
            page_id.x < bm.capacity(),
        ensures
            !(r is Rejected),
            r matches seqlock::Attempt::Acquired(g) ==> g.pid() == page_id.x && g.pool() == bm
                && !g.written(),
            r matches seqlock::Attempt::Draining(g) ==> g.pid() == page_id.x && g.pool() == bm
                && !g.written(),
    ;

    /// One pass of acquiring `page_id`, which succeeds only at version `v`.
    fn try_acquire_version(bm: &'bm SimpleBm, page_id: PageId, v: OlcVersion) -> (r:
        seqlock::Attempt<Self>)
        requires
            page_id.x < bm.capacity(),
        ensures
            r matches seqlock::Attempt::Acquired(g) ==> g.pid() == page_id.x && g.pool() == bm
                && !g.written(),
            r matches seqlock::Attempt::Draining(g) ==> g.pid() == page_id.x && g.pool() == bm
                && !g.written(),
    ;

    fn page_id(&self) -> (r: PageId)
        ensures
            r.x == self.pid(),
    ;

    /// A view of the whole frame of the page.
    fn o_ptr(&self) -> (r: OPtr<'bm>)
        ensures
            r.offset() == 0,
            r.length() == self.pool().frame_size(),
    ;
}

/// A guard that trusts a version until it is checked.
pub trait OptimisticGuard<'bm>: BufferManagerGuard<'bm> {
    /// The version the guard trusts.
    spec fn version(&self) -> OlcVersion;

    /// The trusted version, or an optimistic failure where an exclusive
    /// section began or ended since the snapshot.
    fn check(&self) -> (r: Result<OlcVersion, OptimisticError>)
        ensures
            r matches Ok(v) ==> v == self.version(),
    ;

    /// Gives the guard up without validating.
    fn release_unchecked(self);
}

/// A guard that holds its page exclusively.
pub trait ExclusiveGuard<'bm>: BufferManagerGuard<'bm> {
    /// Forgets earlier writes.
    fn reset_written(&mut self)
        ensures
            !final(self).written(),
            final(self).pid() == old(self).pid(),
            final(self).pool() == old(self).pool(),
    ;

    /// Releases the page and returns it to the free list; a misuse where the
    /// page was not held exclusively.
    fn dealloc(self) -> Result<(), seqlock::LockMisuse>;
}

/// Turning a guard into one of another kind at the version it holds.
pub trait BufferManageGuardUpgrade<'bm, Target: BufferManagerGuard<'bm>>: BufferManagerGuard<
    'bm,
> {
    /// One pass of the upgrade; a rejection is an optimistic failure.
    fn try_upgrade(self) -> (r: seqlock::Attempt<Target>)
        ensures
            r matches seqlock::Attempt::Acquired(g) ==> g.pid() == self.pid() && g.pool()
                == self.pool() && !g.written(),
            r matches seqlock::Attempt::Draining(g) ==> g.pid() == self.pid() && g.pool()
                == self.pool() && !g.written(),
    ;
}

} // verus!
