use crate::o_ptr::{Frame, OPtr};
use crate::optimistic_error::OptimisticError;
use crate::seqlock::{validates, Attempt, LockMisuse, SeqLock, VERSION_LIMIT};
use crate::{
    BufferManageGuardUpgrade, BufferManagerGuard, ExclusiveGuard, OlcVersion, OptimisticGuard, PageId,
};
use std::sync::Mutex;
use vstd::prelude::*;

verus! {

#[verifier::external_type_specification]
#[verifier::external_body]
#[verifier::reject_recursive_types(T)]
pub struct ExMutex<T: ?Sized>(Mutex<T>);

/// Relies on std::sync::Mutex::new: a mutex that holds `v`.
#[verifier::external_body]
fn new_free_list(v: Vec<usize>) -> Mutex<Vec<usize>> {
    Mutex::new(v)
}

/// Relies on std::sync::Mutex::lock: the last index is taken off the list
/// while other threads are held out (a poisoned mutex still hands out its
/// list). What it returns depends on the other threads.
#[verifier::external_body]
fn pop_free(m: &Mutex<Vec<usize>>) -> Option<usize> {
    m.lock().unwrap_or_else(|e| e.into_inner()).pop()
}

/// Relies on std::sync::Mutex::lock: `pid` is pushed onto the list while
/// other threads are held out (a poisoned mutex still hands out its list).
#[verifier::external_body]
fn push_free(m: &Mutex<Vec<usize>>, pid: usize) {
    m.lock().unwrap_or_else(|e| e.into_inner()).push(pid)
}

/// A pool of equally sized, zeroed frames, a lock for each, and a stack of
/// the frames that are free.
pub struct SimpleBm {
    pages: Vec<Frame>,
    locks: Vec<SeqLock>,
    page_size: usize,
    free_list: Mutex<Vec<usize>>,
}

impl SimpleBm {
    #[verifier::type_invariant]
    spec fn inv(self) -> bool {
        &&& self.pages@.len() == self.locks@.len()
        &&& self.pages@.len() <= usize::MAX
        &&& forall|i: int| 0 <= i < self.pages@.len() ==> #[trigger] self.pages@[i].size() == self.page_size
    }

    /// The number of frames.
    pub closed spec fn capacity(&self) -> nat {
        self.pages@.len()
    }

    /// The size of each frame in bytes.
    pub closed spec fn frame_size(&self) -> nat {
        self.page_size as nat
    }

    /// A pool of `capacity` zeroed frames of `page_size` bytes, all free.
    pub fn new(capacity: usize, page_size: usize) -> (r: SimpleBm)
        ensures
            r.capacity() == capacity,
            r.frame_size() == page_size,
    {
        let mut pages: Vec<Frame> = Vec::new();
        let mut locks: Vec<SeqLock> = Vec::new();
        let mut free: Vec<usize> = Vec::new();
        let mut i: usize = 0;
        while i < capacity
            invariant
                i <= capacity,
                pages@.len() == i,
                locks@.len() == i,
                free@.len() == i,
                forall|j: int| 0 <= j < i ==> #[trigger] pages@[j].size() == page_size,
                forall|j: int| 0 <= j < i ==> #[trigger] free@[j] == j,
            decreases capacity - i,
        {
            pages.push(Frame::zeroed(page_size));
            locks.push(SeqLock::new());
            free.push(i);
            i = i + 1;
        }
        SimpleBm { pages, locks, page_size, free_list: new_free_list(free) }
    }

    pub fn capacity_of(&self) -> (r: usize)
        ensures
            r == self.capacity(),
    {
        self.pages.len()
    }

    pub fn page_size(&self) -> (r: usize)
        ensures
            r == self.frame_size(),
    {
        self.page_size
    }

    /// The position of a page in the pool.
    pub fn index(&self, pid: PageId) -> (r: usize)
        requires
            pid.x < self.capacity(),
        ensures
            r == pid.x,
    {
        proof {
            use_type_invariant(self);
        }
        pid.x as usize
    }

    /// The frame of a page.
    pub fn page(&self, pid: PageId) -> (r: &Frame)
        requires
            pid.x < self.capacity(),
        ensures
            r.size() == self.frame_size(),
    {
        proof {
            use_type_invariant(self);
        }
        &self.pages[self.index(pid)]
    }

    /// The lock of a page.
    pub fn lock(&self, pid: PageId) -> (r: &SeqLock)
        requires
            pid.x < self.capacity(),
    {
        proof {
            use_type_invariant(self);
        }
        &self.locks[self.index(pid)]
    }

    /// Takes a frame off the free list and locks it exclusively: `Ok(None)`
    /// when no frame is free, a misuse where the frame taken was held.
    pub fn allocate(&self) -> (r: Result<Option<SimpleGuardX<'_>>, LockMisuse>)
        ensures
            r matches Ok(Some(g)) ==> g.pid() < self.capacity() && g.pool() == self
                && !g.written(),
    {
        let popped = pop_free(&self.free_list);
        self.allocate_popped(popped)
    }

    /// Locks exclusively the frame that was taken off the free list, if any
    /// was: `Ok(None)` where none was or its index lies outside the pool, a
    /// misuse where the frame was held in some mode.
    pub fn allocate_popped(&self, popped: Option<usize>) -> (r: Result<
        Option<SimpleGuardX<'_>>,
        LockMisuse,
    >)
        ensures
            r == Ok::<Option<SimpleGuardX<'_>>, LockMisuse>(None) <==> !(popped matches Some(i)
                && i < self.capacity()),
            r matches Ok(Some(g)) ==> popped == Some(g.pid() as usize) && g.pid() < self.capacity()
                && g.pool() == self && !g.written(),
    {
        proof {
            use_type_invariant(self);
        }
        match popped {
            Some(pid) => {
                if pid < self.pages.len() {
                    match self.locks[pid].force_lock_exclusive() {
                        Ok(_) => Ok(Some(SimpleGuardX { bm: self, pid, written: false })),
                        Err(e) => Err(e),
                    }
                } else {
                    Ok(None)
                }
            },
            None => Ok(None),
        }
    }

    /// Releases the exclusive lock of a page and puts it back on the free
    /// list; a misuse, with the list left alone, where the lock was not held
    /// exclusively.
    pub fn dealloc(&self, pid: PageId) -> (r: Result<(), LockMisuse>)
        requires
            pid.x < self.capacity(),
    {
        proof {
            use_type_invariant(self);
        }
        let i = self.index(pid);
        match self.locks[i].unlock_exclusive() {
            Ok(_) => {
                push_free(&self.free_list, i);
                Ok(())
            },
            Err(e) => Err(e),
        }
    }
}

} // verus!

verus! {

/// An optimistic guard: a version snapshot of one page, trusted until it is
/// checked. It holds no lock and may be copied.
#[derive(Clone, Copy)]
pub struct SimpleGuardO<'bm> {
    bm: &'bm SimpleBm,
    pid: usize,
    version: OlcVersion,
}

/// A shared guard: one of the shared holders counted in the page's lock.
pub struct SimpleGuardS<'bm> {
    bm: &'bm SimpleBm,
    pid: usize,
}

/// An exclusive guard: the holder of the page's exclusive flag. `written`
/// records whether the page was written through it.
pub struct SimpleGuardX<'bm> {
    bm: &'bm SimpleBm,
    pid: usize,
    written: bool,
}

/// What a pass of a guard acquisition yields, from what the lock's pass
/// yielded.
fn guard_attempt<T, G>(a: Attempt<T>, g: G) -> (r: Attempt<G>)
    ensures
        a is Acquired <==> r is Acquired,
        a is Draining <==> r is Draining,
        a is Rejected <==> r is Rejected,
        a is Busy <==> r is Busy,
        a is Retry <==> r is Retry,
        r matches Attempt::Acquired(x) ==> x == g,
        r matches Attempt::Draining(x) ==> x == g,
{
    match a {
        Attempt::Acquired(_) => Attempt::Acquired(g),
        Attempt::Draining(_) => Attempt::Draining(g),
        Attempt::Rejected(e) => Attempt::Rejected(e),
        Attempt::Busy => Attempt::Busy,
        Attempt::Retry => Attempt::Retry,
    }
}

impl<'bm> SimpleGuardO<'bm> {
    #[verifier::type_invariant]
    spec fn inv(self) -> bool {
        self.pid < self.bm.capacity()
    }

    /// Validates and gives the guard up.
    pub fn release(self) -> (r: Result<OlcVersion, OptimisticError>)
        ensures
            exists|x: u64| (r is Ok <==> #[trigger] validates(x, self.version().x)),
            r matches Ok(v) ==> v == self.version(),
            self.version().x >= VERSION_LIMIT ==> r is Err,
    {
        self.validate()
    }

    fn validate(&self) -> (r: Result<OlcVersion, OptimisticError>)
        ensures
            exists|x: u64| (r is Ok <==> #[trigger] validates(x, self.version().x)),
            r matches Ok(v) ==> v == self.version(),
            self.version().x >= VERSION_LIMIT ==> r is Err,
    {
        proof {
            use_type_invariant(self);
        }
        let p = PageId { x: self.pid as u64 };
        let t = self.bm.lock(p).try_unlock_optimistic(self.version);
        let r = match t {
            Ok(()) => Ok(self.version),
            Err(e) => Err(e),
        };
        proof {
            let x = choose|x: u64| (t is Ok <==> #[trigger] validates(x, self.version.x));
            assert(r is Ok <==> validates(x, self.version().x));
        }
        r
    }

    /// What dropping the guard does: validate, and report a failure only
    /// when no optimistic failure is already being propagated.
    pub fn release_on_drop(self, unwinding: bool) -> (r: Result<(), OptimisticError>)
        ensures
            unwinding ==> r is Ok,
            self.version().x >= VERSION_LIMIT && !unwinding ==> r is Err,
    {
        match self.validate() {
            Ok(_) => Ok(()),
            Err(e) => {
                if unwinding {
                    Ok(())
                } else {
                    Err(e)
                }
            },
        }
    }
}

impl<'bm> BufferManagerGuard<'bm> for SimpleGuardO<'bm> {
    closed spec fn pid(&self) -> nat {
        self.pid as nat
    }

    closed spec fn pool(&self) -> &'bm SimpleBm {
        self.bm
    }

    open spec fn written(&self) -> bool {
        false
    }

    fn try_acquire(bm: &'bm SimpleBm, page_id: PageId) -> (r: Attempt<SimpleGuardO<'bm>>) {
        match bm.lock(page_id).try_lock_optimistic(()) {
            Attempt::Acquired(version) => {
                Attempt::Acquired(SimpleGuardO { bm, pid: bm.index(page_id), version })
            },
            Attempt::Rejected(e) => Attempt::Rejected(e),
            _ => Attempt::Busy,
        }
    }

    fn try_acquire_version(bm: &'bm SimpleBm, page_id: PageId, v: OlcVersion) -> (r: Attempt<
        SimpleGuardO<'bm>,
    >)
        ensures
            r matches Attempt::Acquired(g) ==> g.version() == v,
    {
        let a = bm.lock(page_id).try_lock_optimistic(v);
        guard_attempt(a, SimpleGuardO { bm, pid: bm.index(page_id), version: v })
    }

    fn page_id(&self) -> (r: PageId) {
        PageId { x: self.pid as u64 }
    }

    fn o_ptr(&self) -> (r: OPtr<'bm>) {
        proof {
            use_type_invariant(self);
        }
        OPtr::from_ref(self.bm.page(PageId { x: self.pid as u64 }))
    }
}

impl<'bm> OptimisticGuard<'bm> for SimpleGuardO<'bm> {
    closed spec fn version(&self) -> OlcVersion {
        self.version
    }

    fn check(&self) -> (r: Result<OlcVersion, OptimisticError>)
        ensures
            exists|x: u64| (r is Ok <==> #[trigger] validates(x, self.version().x)),
    {
        self.validate()
    }

    fn release_unchecked(self) {
    }
}

impl<'bm> BufferManageGuardUpgrade<'bm, SimpleGuardS<'bm>> for SimpleGuardO<'bm> {
    fn try_upgrade(self) -> (r: Attempt<SimpleGuardS<'bm>>) {
        proof {
            use_type_invariant(self);
        }
        let p = PageId { x: self.pid as u64 };
        let a = self.bm.lock(p).try_lock_shared(self.version);
        guard_attempt(a, SimpleGuardS { bm: self.bm, pid: self.pid })
    }
}

impl<'bm> BufferManageGuardUpgrade<'bm, SimpleGuardX<'bm>> for SimpleGuardO<'bm> {
    fn try_upgrade(self) -> (r: Attempt<SimpleGuardX<'bm>>) {
        proof {
            use_type_invariant(self);
        }
        let p = PageId { x: self.pid as u64 };
        let a = self.bm.lock(p).try_lock_exclusive(self.version);
        guard_attempt(a, SimpleGuardX { bm: self.bm, pid: self.pid, written: false })
    }
}

impl<'bm> SimpleGuardS<'bm> {
    #[verifier::type_invariant]
    spec fn inv(self) -> bool {
        self.pid < self.bm.capacity()
    }

    /// Leaves the shared hold; returns the version at that moment.
    pub fn release(self) -> (r: Result<OlcVersion, LockMisuse>)
        ensures
            r matches Ok(v) ==> v.x < VERSION_LIMIT,
    {
        proof {
            use_type_invariant(&self);
        }
        self.bm.lock(PageId { x: self.pid as u64 }).unlock_shared()
    }
}

impl<'bm> BufferManagerGuard<'bm> for SimpleGuardS<'bm> {
    closed spec fn pid(&self) -> nat {
        self.pid as nat
    }

    closed spec fn pool(&self) -> &'bm SimpleBm {
        self.bm
    }

    open spec fn written(&self) -> bool {
        false
    }

    fn try_acquire(bm: &'bm SimpleBm, page_id: PageId) -> (r: Attempt<SimpleGuardS<'bm>>) {
        let a = bm.lock(page_id).try_lock_shared(());
        guard_attempt(a, SimpleGuardS { bm, pid: bm.index(page_id) })
    }

    fn try_acquire_version(bm: &'bm SimpleBm, page_id: PageId, v: OlcVersion) -> (r: Attempt<
        SimpleGuardS<'bm>,
    >) {
        let a = bm.lock(page_id).try_lock_shared(v);
        guard_attempt(a, SimpleGuardS { bm, pid: bm.index(page_id) })
    }

    fn page_id(&self) -> (r: PageId) {
        PageId { x: self.pid as u64 }
    }

    fn o_ptr(&self) -> (r: OPtr<'bm>) {
        proof {
            use_type_invariant(self);
        }
        OPtr::from_ref(self.bm.page(PageId { x: self.pid as u64 }))
    }
}

impl<'bm> SimpleGuardX<'bm> {
    #[verifier::type_invariant]
    spec fn inv(self) -> bool {
        self.pid < self.bm.capacity()
    }

    /// Whether the shared holders that were inside when the exclusive flag
    /// was set have all left.
    pub fn poll_drained(&self) -> (r: bool) {
        proof {
            use_type_invariant(self);
        }
        self.bm.lock(PageId { x: self.pid as u64 }).poll_drained()
    }

    /// Writes `src` into the page at `offset`, and marks the page written;
    /// an optimistic failure where it does not fit.
    pub fn write_bytes(&mut self, offset: usize, src: &[u8]) -> (r: Result<(), OptimisticError>)
        ensures
            r is Ok <==> offset + src@.len() <= old(self).pool().frame_size(),
            final(self).written(),
            final(self).pid() == old(self).pid(),
            final(self).pool() == old(self).pool(),
    {
        proof {
            use_type_invariant(&*self);
        }
        self.written = true;
        let p = OPtr::from_ref(self.bm.page(PageId { x: self.pid as u64 }));
        p.store_bytes(offset, src)
    }

    /// Leaves the exclusive hold, advancing the version; returns the version
    /// after the release.
    pub fn release(self) -> (r: Result<OlcVersion, LockMisuse>)
        ensures
            r matches Ok(v) ==> v.x < VERSION_LIMIT,
    {
        proof {
            use_type_invariant(&self);
        }
        self.bm.lock(PageId { x: self.pid as u64 }).unlock_exclusive()
    }

    /// What dropping the guard does: release, except while a retry is being
    /// propagated after the page was written, which is a programming error
    /// (`None`, and the lock stays held).
    pub fn release_on_drop(self, unwinding: bool) -> (r: Option<Result<OlcVersion, LockMisuse>>)
        ensures
            r is None <==> unwinding && self.written(),
    {
        if unwinding && self.written {
            None
        } else {
            Some(self.release())
        }
    }
}

impl<'bm> BufferManagerGuard<'bm> for SimpleGuardX<'bm> {
    closed spec fn pid(&self) -> nat {
        self.pid as nat
    }

    closed spec fn pool(&self) -> &'bm SimpleBm {
        self.bm
    }

    closed spec fn written(&self) -> bool {
        self.written
    }

    fn try_acquire(bm: &'bm SimpleBm, page_id: PageId) -> (r: Attempt<SimpleGuardX<'bm>>) {
        let a = bm.lock(page_id).try_lock_exclusive(());
        guard_attempt(a, SimpleGuardX { bm, pid: bm.index(page_id), written: false })
    }

    fn try_acquire_version(bm: &'bm SimpleBm, page_id: PageId, v: OlcVersion) -> (r: Attempt<
        SimpleGuardX<'bm>,
    >) {
        let a = bm.lock(page_id).try_lock_exclusive(v);
        guard_attempt(a, SimpleGuardX { bm, pid: bm.index(page_id), written: false })
    }

    fn page_id(&self) -> (r: PageId) {
        PageId { x: self.pid as u64 }
    }

    fn o_ptr(&self) -> (r: OPtr<'bm>) {
        proof {
            use_type_invariant(self);
        }
        OPtr::from_ref(self.bm.page(PageId { x: self.pid as u64 }))
    }
}

impl<'bm> ExclusiveGuard<'bm> for SimpleGuardX<'bm> {
    fn reset_written(&mut self) {
        proof {
            use_type_invariant(&*self);
        }
        self.written = false;
    }

    fn dealloc(self) -> (r: Result<(), LockMisuse>) {
        proof {
            use_type_invariant(&self);
        }
        self.bm.dealloc(PageId { x: self.pid as u64 })
    }
}

} // verus!
