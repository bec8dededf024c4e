use crate::optimistic_error::OptimisticError;
use crate::OlcVersion;
use std::sync::atomic::{AtomicU64, Ordering};
use vstd::prelude::*;

verus! {

/// Width of the shared-holder count at the bottom of the lock word.
pub const COUNT_BITS: u64 = 10;

/// The shared-holder count field.
pub const COUNT_MASK: u64 = 1023;

/// The exclusive flag, just above the count.
pub const EXCLUSIVE_MASK: u64 = 1024;

/// The version field starts here and runs to the top of the word.
pub const VERSION_SHIFT: u64 = 11;

/// Every version field holds less than this (the field has 53 bits).
pub const VERSION_LIMIT: u64 = 0x20_0000_0000_0000;

/// The number of shared holders recorded in a lock word.
pub open spec fn word_count(x: u64) -> u64 {
    x & 1023
}

/// Whether a lock word carries the exclusive flag.
pub open spec fn word_exclusive(x: u64) -> bool {
    x & 1024 != 0
}

/// The version recorded in a lock word.
pub open spec fn word_version(x: u64) -> u64 {
    x >> 11
}

/// The count of a word in exec code.
pub fn count_of(x: u64) -> (r: u64)
    ensures
        r == word_count(x),
        r <= COUNT_MASK,
{
    assert(x & 1023 <= 1023) by (bit_vector);
    x & COUNT_MASK
}

/// The exclusive flag of a word in exec code.
pub fn is_exclusive(x: u64) -> (r: bool)
    ensures
        r == word_exclusive(x),
{
    x & EXCLUSIVE_MASK != 0
}

/// The version of a word in exec code.
pub fn version_of(x: u64) -> (r: u64)
    ensures
        r == word_version(x),
        r < VERSION_LIMIT,
{
    assert(x >> 11 < 0x20_0000_0000_0000u64) by (bit_vector);
    x >> VERSION_SHIFT
}

} // verus!

verus! {

/// A condition on the version seen when a lock is taken.
///
/// `()` accepts any version and hands it back; an `OlcVersion` accepts only
/// itself.
pub trait VersionFilter: Sized {
    /// What a successful acquisition returns.
    type R;

    spec fn accepts(&self, v: u64) -> bool;

    spec fn result_of(&self, v: u64) -> Self::R;

    fn check(&self, v: u64) -> (r: Result<(), OptimisticError>)
        ensures
            r is Ok <==> self.accepts(v),
    ;

    fn map_r(&self, v: u64) -> (r: Self::R)
        requires
            self.accepts(v),
        ensures
            r == self.result_of(v),
    ;
}

impl VersionFilter for () {
    type R = OlcVersion;

    open spec fn accepts(&self, v: u64) -> bool {
        true
    }

    open spec fn result_of(&self, v: u64) -> OlcVersion {
        OlcVersion { x: v }
    }

    fn check(&self, v: u64) -> (r: Result<(), OptimisticError>) {
        Ok(())
    }

    fn map_r(&self, v: u64) -> (r: OlcVersion) {
        OlcVersion { x: v }
    }
}

impl VersionFilter for OlcVersion {
    type R = ();

    open spec fn accepts(&self, v: u64) -> bool {
        v == self.x
    }

    open spec fn result_of(&self, v: u64) -> () {
        ()
    }

    fn check(&self, v: u64) -> (r: Result<(), OptimisticError>) {
        if v == self.x {
            Ok(())
        } else {
            Err(OptimisticError::new())
        }
    }

    fn map_r(&self, v: u64) -> (r: ()) {
    }
}

} // verus!

verus! {

/// What one pass of an acquisition decides on the word it saw.
pub enum Step {
    /// The filter refused the version: the acquisition fails.
    Reject,
    /// The lock is held in a conflicting mode: yield, then look again.
    Wait,
    /// Try to install the given word in place of the one seen.
    Install(u64),
    /// Taken: nothing is written.
    Enter,
}

/// What an exclusive claim decides on the word that was there before the
/// flag was set.
pub enum Claim {
    /// Another thread held the flag already: ours changed nothing.
    Contended,
    /// The filter refused the version: the flag just set must be cleared again.
    Undo,
    /// No shared holders: the exclusive holder may enter.
    Ready,
    /// Shared holders are still inside: wait for the count to reach zero.
    Drain,
}

/// Shared access can be granted on a word: no exclusive holder and room in
/// the count (the top value of the count is kept free).
pub open spec fn shared_grantable(x: u64) -> bool {
    !word_exclusive(x) && word_count(x) < 1023
}

/// The decision of a shared acquisition on a word.
pub open spec fn shared_step_spec(accepted: bool, x: u64) -> Step {
    if !accepted {
        Step::Reject
    } else if shared_grantable(x) {
        Step::Install((x + 1) as u64)
    } else {
        Step::Wait
    }
}

/// The decision of the first look of an exclusive acquisition.
pub open spec fn exclusive_step_spec(accepted: bool, x: u64) -> Step {
    if !accepted {
        Step::Reject
    } else if word_exclusive(x) {
        Step::Wait
    } else {
        Step::Install(x | 1024)
    }
}

/// The decision on the word found under a freshly set exclusive flag.
pub open spec fn claim_spec(accepted: bool, prior: u64) -> Claim {
    if word_exclusive(prior) {
        Claim::Contended
    } else if !accepted {
        Claim::Undo
    } else if word_count(prior) == 0 {
        Claim::Ready
    } else {
        Claim::Drain
    }
}

/// The decision of an optimistic acquisition: it never writes.
pub open spec fn optimistic_step_spec(accepted: bool, x: u64) -> Step {
    if !accepted {
        Step::Reject
    } else if !word_exclusive(x) {
        Step::Enter
    } else {
        Step::Wait
    }
}

/// An optimistic read that began at version `v` is still valid on word `x`:
/// nobody holds it exclusively and no exclusive section ended since.
pub open spec fn validates(x: u64, v: u64) -> bool {
    !word_exclusive(x) && word_version(x) == v
}

/// The word after an exclusive release: adding the flag's value clears the
/// flag and carries one into the version.
pub open spec fn release_exclusive_word(x: u64) -> u64 {
    ((x + 1024) % 0x1_0000_0000_0000_0000) as u64
}

/// The word after a shared release.
pub open spec fn release_shared_word(x: u64) -> u64 {
    (x - 1) as u64
}

/// Decides a shared acquisition on the word `x`.
pub fn shared_step(accepted: bool, x: u64) -> (r: Step)
    ensures
        r == shared_step_spec(accepted, x),
{
    if !accepted {
        return Step::Reject;
    }
    let busy = x & (COUNT_MASK | EXCLUSIVE_MASK);
    assert(busy < 1023 <==> (!word_exclusive(x) && word_count(x) < 1023)) by {
        assert((x & (1023u64 | 1024u64)) < 1023 <==> ((x & 1024) == 0 && (x & 1023) < 1023))
            by (bit_vector);
    }
    if busy < COUNT_MASK {
        assert(x & 1023 < 1023 ==> x < 0xffff_ffff_ffff_ffffu64) by (bit_vector);
        Step::Install(x + 1)
    } else {
        Step::Wait
    }
}

/// Decides the first look of an exclusive acquisition on the word `x`.
pub fn exclusive_step(accepted: bool, x: u64) -> (r: Step)
    ensures
        r == exclusive_step_spec(accepted, x),
{
    if !accepted {
        Step::Reject
    } else if is_exclusive(x) {
        Step::Wait
    } else {
        Step::Install(x | EXCLUSIVE_MASK)
    }
}

/// Decides what a thread that has just set the exclusive flag does, from
/// the word that was there before.
pub fn claim_step(accepted: bool, prior: u64) -> (r: Claim)
    ensures
        r == claim_spec(accepted, prior),
{
    if is_exclusive(prior) {
        Claim::Contended
    } else if !accepted {
        Claim::Undo
    } else if count_of(prior) == 0 {
        Claim::Ready
    } else {
        Claim::Drain
    }
}

/// Decides an optimistic acquisition on the word `x`.
pub fn optimistic_step(accepted: bool, x: u64) -> (r: Step)
    ensures
        r == optimistic_step_spec(accepted, x),
{
    if !accepted {
        Step::Reject
    } else if !is_exclusive(x) {
        Step::Enter
    } else {
        Step::Wait
    }
}

/// Checks an optimistic snapshot against the word `x`. Changes of the
/// shared count do not matter.
pub fn validate_word(x: u64, v: OlcVersion) -> (r: Result<(), OptimisticError>)
    ensures
        r is Ok <==> validates(x, v.x),
        r is Ok ==> v.x < VERSION_LIMIT,
{
    if !is_exclusive(x) && version_of(x) == v.x {
        Ok(())
    } else {
        Err(OptimisticError::new())
    }
}

/// The version left behind by an exclusive release whose atomic add saw
/// `prior`.
pub fn version_after_exclusive(prior: u64) -> (r: OlcVersion)
    ensures
        r.x == word_version(release_exclusive_word(prior)),
        r.x < VERSION_LIMIT,
{
    OlcVersion { x: version_of(prior.wrapping_add(EXCLUSIVE_MASK)) }
}

} // verus!

verus! {

/// Relies on std::sync::atomic::fence: orders the loads after it; it returns
/// nothing, and panics on `Relaxed`.
pub assume_specification[ std::sync::atomic::fence ](order: Ordering)
    requires
        !(order is Relaxed),
;

/// The outcome of one pass of an acquisition.
pub enum Attempt<T> {
    /// Taken; the value is what the filter made of the version seen.
    Acquired(T),
    /// Exclusive flag set, but shared holders are still inside: call
    /// `poll_drained` until it says yes before touching the page.
    Draining(T),
    /// The filter refused the version seen.
    Rejected(OptimisticError),
    /// Held in a conflicting mode: yield, then try again.
    Busy,
    /// The word changed under this pass: try again at once.
    Retry,
}

/// The outcome of a shared pass that saw the word `x` and whose
/// compare-and-swap did (`swapped`) or did not install `x + 1`.
pub open spec fn shared_attempt_spec<F: VersionFilter>(
    f: F,
    x: u64,
    swapped: bool,
    r: Attempt<F::R>,
) -> bool {
    let ok = f.accepts(word_version(x));
    &&& (r is Rejected <==> !ok)
    &&& (r is Acquired <==> ok && shared_grantable(x) && swapped)
    &&& (r is Busy <==> ok && !shared_grantable(x))
    &&& (r is Retry <==> ok && shared_grantable(x) && !swapped)
    &&& !(r is Draining)
    &&& (r matches Attempt::Acquired(v) ==> v == f.result_of(word_version(x)))
}

/// The outcome of an exclusive claim whose flag-setting `fetch_or` found
/// the word `prior`.
pub open spec fn claim_attempt_spec<F: VersionFilter>(f: F, prior: u64, r: Attempt<F::R>) -> bool {
    match claim_spec(f.accepts(word_version(prior)), prior) {
        Claim::Contended => r is Busy,
        Claim::Undo => r is Rejected,
        Claim::Ready => r == Attempt::Acquired(f.result_of(word_version(prior))),
        Claim::Drain => r == Attempt::Draining(f.result_of(word_version(prior))),
    }
}

/// The outcome of an exclusive pass whose first load saw `x` and whose
/// `fetch_or`, made only where `x` was accepted and free of the flag, found
/// `prior`.
pub open spec fn exclusive_attempt_spec<F: VersionFilter>(
    f: F,
    x: u64,
    prior: u64,
    r: Attempt<F::R>,
) -> bool {
    if !f.accepts(word_version(x)) {
        r is Rejected
    } else if word_exclusive(x) {
        r is Retry
    } else {
        claim_attempt_spec(f, prior, r)
    }
}

/// The outcome of an optimistic pass that saw the word `x`.
pub open spec fn optimistic_attempt_spec<F: VersionFilter>(f: F, x: u64, r: Attempt<F::R>) -> bool {
    let ok = f.accepts(word_version(x));
    &&& (r is Rejected <==> !ok)
    &&& (r is Acquired <==> ok && !word_exclusive(x))
    &&& (r is Busy <==> ok && word_exclusive(x))
    &&& !(r is Draining) && !(r is Retry)
    &&& (r matches Attempt::Acquired(v) ==> v == f.result_of(word_version(x)))
}

/// Decides a shared pass from the word it saw and whether its
/// compare-and-swap succeeded.
pub fn shared_attempt<F: VersionFilter>(f: &F, x: u64, swapped: bool) -> (r: Attempt<F::R>)
    ensures
        shared_attempt_spec(*f, x, swapped, r),
{
    let v = version_of(x);
    if f.check(v).is_err() {
        return Attempt::Rejected(OptimisticError::new());
    }
    match shared_step(true, x) {
        Step::Install(_) => {
            if swapped {
                Attempt::Acquired(f.map_r(v))
            } else {
                Attempt::Retry
            }
        },
        _ => Attempt::Busy,
    }
}

/// Decides an exclusive claim from the word its `fetch_or` found. A
/// rejection means the flag just set has to be cleared again.
pub fn claim_attempt<F: VersionFilter>(f: &F, prior: u64) -> (r: Attempt<F::R>)
    ensures
        claim_attempt_spec(*f, prior, r),
{
    let v = version_of(prior);
    let accepted = f.check(v).is_ok();
    match claim_step(accepted, prior) {
        Claim::Contended => Attempt::Busy,
        Claim::Undo => Attempt::Rejected(OptimisticError::new()),
        Claim::Ready => Attempt::Acquired(f.map_r(v)),
        Claim::Drain => Attempt::Draining(f.map_r(v)),
    }
}

/// Decides an optimistic pass from the word it saw.
pub fn optimistic_attempt<F: VersionFilter>(f: &F, x: u64) -> (r: Attempt<F::R>)
    ensures
        optimistic_attempt_spec(*f, x, r),
{
    let v = version_of(x);
    let accepted = f.check(v).is_ok();
    match optimistic_step(accepted, x) {
        Step::Enter => Attempt::Acquired(f.map_r(v)),
        Step::Reject => Attempt::Rejected(OptimisticError::new()),
        _ => Attempt::Busy,
    }
}

/// Whether a word records no shared holders.
pub fn drained(x: u64) -> (r: bool)
    ensures
        r == (word_count(x) == 0),
{
    count_of(x) == 0
}

/// A lock released in a mode it was not held in, or forced while held: a
/// programming error of the caller.
#[derive(PartialEq, Eq, Clone, Copy, Debug)]
pub struct LockMisuse {
    _private: (),
}

/// Judges a shared release from the word its atomic subtraction found: it
/// must have counted a holder. Returns the version at that moment.
pub fn shared_release(prior: u64) -> (r: Result<OlcVersion, LockMisuse>)
    ensures
        r is Ok <==> word_count(prior) != 0,
        r matches Ok(v) ==> v.x == word_version(prior),
        r matches Ok(v) ==> v.x < VERSION_LIMIT,
{
    if count_of(prior) != 0 {
        Ok(OlcVersion { x: version_of(prior) })
    } else {
        Err(LockMisuse { _private: () })
    }
}

/// Judges an exclusive release from the word its atomic add found: it must
/// have carried the flag. Returns the version after the release.
pub fn exclusive_release(prior: u64) -> (r: Result<OlcVersion, LockMisuse>)
    ensures
        r is Ok <==> word_exclusive(prior),
        r matches Ok(v) ==> v.x == word_version(release_exclusive_word(prior)),
        r matches Ok(v) ==> v.x < VERSION_LIMIT,
{
    if is_exclusive(prior) {
        Ok(version_after_exclusive(prior))
    } else {
        Err(LockMisuse { _private: () })
    }
}

/// A forced claim that found `prior` succeeds exactly on a word without
/// holders, and reports the version found.
pub open spec fn forced_claim_spec(prior: u64, r: Result<OlcVersion, LockMisuse>) -> bool {
    &&& (r is Ok <==> !word_exclusive(prior) && word_count(prior) == 0)
    &&& (r matches Ok(v) ==> v.x == word_version(prior))
}

/// Judges a forced exclusive claim from the word its `fetch_or` found: it
/// must have been free of holders. Returns the version found.
pub fn forced_claim(prior: u64) -> (r: Result<OlcVersion, LockMisuse>)
    ensures
        r is Ok <==> !word_exclusive(prior) && word_count(prior) == 0,
        r matches Ok(v) ==> v.x == word_version(prior),
        r matches Ok(v) ==> v.x < VERSION_LIMIT,
        forced_claim_spec(prior, r),
{
    if !is_exclusive(prior) && count_of(prior) == 0 {
        Ok(OlcVersion { x: version_of(prior) })
    } else {
        Err(LockMisuse { _private: () })
    }
}

/// A sequence lock: one atomic word holding a shared-holder count, an
/// exclusive flag and a version that each exclusive release advances.
pub struct SeqLock {
    word: AtomicU64,
}

impl SeqLock {
    /// A free lock at version zero.
    pub fn new() -> (r: SeqLock) {
        SeqLock { word: AtomicU64::new(0) }
    }

    /// One pass of a shared acquisition: load, filter, then one
    /// compare-and-swap that adds a holder.
    pub fn try_lock_shared<F: VersionFilter>(&self, f: F) -> (r: Attempt<F::R>)
        ensures
            exists|x: u64, swapped: bool| #[trigger] shared_attempt_spec(f, x, swapped, r),
    {
        let x = self.word.load(Ordering::Relaxed);
        let accepted = f.check(version_of(x)).is_ok();
        let swapped = match shared_step(accepted, x) {
            Step::Install(next) => self.word.compare_exchange_weak(
                x,
                next,
                Ordering::Acquire,
                Ordering::Relaxed,
            ).is_ok(),
            _ => false,
        };
        let r = shared_attempt(&f, x, swapped);
        assert(shared_attempt_spec(f, x, swapped, r));
        r
    }

    /// Gives up one shared hold and returns the version at that moment; a
    /// misuse where no shared holder was counted.
    pub fn unlock_shared(&self) -> (r: Result<OlcVersion, LockMisuse>)
        ensures
            r matches Ok(v) ==> v.x < VERSION_LIMIT,
            exists|prior: u64|
                (r is Ok <==> #[trigger] word_count(prior) != 0) && (r matches Ok(v) ==> v.x
                    == word_version(prior)),
    {
        let fetched = self.word.fetch_sub(1, Ordering::Release);
        let r = shared_release(fetched);
        assert(r is Ok <==> word_count(fetched) != 0);
        r
    }


    /// One pass of an exclusive acquisition: load and filter; if no one
    /// holds the flag, set it, and check the word that was there before. A
    /// version refused after the flag was set clears the flag again and
    /// fails.
    pub fn try_lock_exclusive<F: VersionFilter>(&self, f: F) -> (r: Attempt<F::R>)
        ensures
            exists|x: u64, prior: u64| #[trigger] exclusive_attempt_spec(f, x, prior, r),
    {
        let x = self.word.load(Ordering::Relaxed);
        if f.check(version_of(x)).is_err() {
            let r = Attempt::Rejected(OptimisticError::new());
            assert(exclusive_attempt_spec(f, x, 0, r));
            return r;
        }
        if is_exclusive(x) {
            // A held flag is looked at again at once, without yielding.
            let r = Attempt::Retry;
            assert(exclusive_attempt_spec(f, x, 0, r));
            return r;
        }
        let prior = self.word.fetch_or(EXCLUSIVE_MASK, Ordering::Acquire);
        let r = claim_attempt(&f, prior);
        if matches!(r, Attempt::Rejected(_)) {
            let _ = self.word.fetch_and(!EXCLUSIVE_MASK, Ordering::Relaxed);
        }
        assert(exclusive_attempt_spec(f, x, prior, r));
        r
    }

    /// Whether the shared holders have all left; an exclusive holder whose
    /// claim is draining calls this until it says yes.
    pub fn poll_drained(&self) -> (r: bool)
        ensures
            exists|x: u64| r == (#[trigger] word_count(x) == 0),
    {
        let x = self.word.load(Ordering::Acquire);
        drained(x)
    }

    /// Sets the exclusive flag without waiting, for a lock that nobody else
    /// can reach (a frame just taken from the free list). Returns the version
    /// found; a misuse where the lock was held in any mode.
    pub fn force_lock_exclusive(&self) -> (r: Result<OlcVersion, LockMisuse>)
        ensures
            r matches Ok(v) ==> v.x < VERSION_LIMIT,
            exists|prior: u64| #[trigger] forced_claim_spec(prior, r),
    {
        let x = self.word.fetch_or(EXCLUSIVE_MASK, Ordering::Acquire);
        let r = forced_claim(x);
        assert(forced_claim_spec(x, r));
        r
    }

    /// Clears the exclusive flag and advances the version by one in a single
    /// atomic add; returns the version after the release, or a misuse where
    /// the flag was not set.
    pub fn unlock_exclusive(&self) -> (r: Result<OlcVersion, LockMisuse>)
        ensures
            r matches Ok(v) ==> v.x < VERSION_LIMIT,
            exists|prior: u64|
                (r is Ok <==> #[trigger] word_exclusive(prior)) && (r matches Ok(v) ==> v.x
                    == word_version(release_exclusive_word(prior))),
    {
        let fetched = self.word.fetch_add(EXCLUSIVE_MASK, Ordering::Release);
        let r = exclusive_release(fetched);
        assert(r is Ok <==> word_exclusive(fetched));
        r
    }

    /// One pass of an optimistic acquisition: a snapshot of the version,
    /// taken only while nobody holds the lock exclusively. Nothing is
    /// written.
    pub fn try_lock_optimistic<F: VersionFilter>(&self, f: F) -> (r: Attempt<F::R>)
        ensures
            exists|x: u64| #[trigger] optimistic_attempt_spec(f, x, r),
    {
        let x = self.word.load(Ordering::Acquire);
        let r = optimistic_attempt(&f, x);
        assert(optimistic_attempt_spec(f, x, r));
        r
    }

    /// Checks that no exclusive section began or ended since the snapshot
    /// `v` was taken.
    pub fn try_unlock_optimistic(&self, v: OlcVersion) -> (r: Result<(), OptimisticError>)
        ensures
            exists|x: u64| (r is Ok <==> #[trigger] validates(x, v.x)),
            v.x >= VERSION_LIMIT ==> r is Err,
    {
        std::sync::atomic::fence(Ordering::Acquire);
        let x = self.word.load(Ordering::Relaxed);
        let r = validate_word(x, v);
        assert(r is Ok <==> validates(x, v.x));
        r
    }
}

} // verus!

verus! {

/// Mutual exclusion. While a word carries the exclusive flag, no shared
/// acquisition is granted, no other exclusive claim succeeds and no
/// optimistic reader enters; an exclusive holder enters only where the word
/// it claimed had no shared holders, and its claim leaves the flag set with
/// count and version as they were.
pub proof fn lemma_mutual_exclusion(x: u64, accepted: bool)
    ensures
        word_exclusive(x) ==> !(shared_step_spec(accepted, x) is Install),
        word_exclusive(x) ==> !(exclusive_step_spec(accepted, x) is Install),
        word_exclusive(x) ==> claim_spec(accepted, x) == Claim::Contended,
        word_exclusive(x) ==> !(optimistic_step_spec(accepted, x) is Enter),
        claim_spec(accepted, x) == Claim::Ready ==> word_count(x) == 0 && !word_exclusive(x),
        word_exclusive(x | 1024),
        word_count(x | 1024) == word_count(x),
        word_version(x | 1024) == word_version(x),
{
    assert(((x | 1024) & 1024) != 0 && ((x | 1024) & 1023) == (x & 1023) && ((x | 1024) >> 11)
        == (x >> 11)) by (bit_vector);
}

/// Shared compatibility. On a word with no holders and no exclusive flag,
/// each of up to `COUNT_MASK - 1` shared holders in turn is granted, the
/// word then counts them at an unchanged version, and as many releases bring
/// the word back to where it started.
pub proof fn lemma_shared_compatibility(x: u64, n: u64)
    requires
        word_count(x) == 0,
        !word_exclusive(x),
        n < COUNT_MASK,
    ensures
        forall|k: u64|
            k < n ==> #[trigger] shared_step_spec(true, (x + k) as u64) == Step::Install(
                (x + k + 1) as u64,
            ),
        word_count((x + n) as u64) == n,
        word_version((x + n) as u64) == word_version(x),
        !word_exclusive((x + n) as u64),
        forall|k: u64|
            0 < k <= n ==> #[trigger] release_shared_word((x + k) as u64) == (x + k - 1) as u64,
{
    assert forall|k: u64| k < n implies #[trigger] shared_step_spec(true, (x + k) as u64)
        == Step::Install((x + k + 1) as u64) by {
        assert((x & 1023) == 0 && (x & 1024) == 0 && k < 1022 ==> x + k < 0xffff_ffff_ffff_ffffu64
            && (((x + k) as u64) & 1024) == 0 && (((x + k) as u64) & 1023) == k) by (bit_vector);
    }
    assert((x & 1023) == 0 && (x & 1024) == 0 && n < 1023 ==> x + n <= 0xffff_ffff_ffff_ffffu64
        && (((x + n) as u64) & 1024) == 0 && (((x + n) as u64) & 1023) == n && (((x + n) as u64) >> 11) == (x >> 11))
        by (bit_vector);
}

/// Version monotonicity. An exclusive release clears the flag, keeps the
/// count and advances the version by exactly one (short of the last
/// version, where the field wraps); a shared grant or release leaves the
/// version and the flag alone; an optimistic acquisition never writes.
pub proof fn lemma_version_monotonicity(x: u64, accepted: bool)
    ensures
        word_exclusive(x) && word_version(x) + 1 < VERSION_LIMIT ==> {
            &&& !word_exclusive(release_exclusive_word(x))
            &&& word_version(release_exclusive_word(x)) == word_version(x) + 1
            &&& word_count(release_exclusive_word(x)) == word_count(x)
        },
        shared_grantable(x) ==> {
            &&& word_version((x + 1) as u64) == word_version(x)
            &&& !word_exclusive((x + 1) as u64)
            &&& word_count((x + 1) as u64) == word_count(x) + 1
        },
        word_count(x) > 0 ==> {
            &&& word_version(release_shared_word(x)) == word_version(x)
            &&& word_exclusive(release_shared_word(x)) == word_exclusive(x)
            &&& word_count(release_shared_word(x)) == word_count(x) - 1
        },
        !(optimistic_step_spec(accepted, x) is Install),
{
    assert((x & 1024) != 0 && (x >> 11) + 1 < 0x20_0000_0000_0000u64 ==> x + 1024
        < 0x1_0000_0000_0000_0000 && (((x + 1024) as u64) & 1024) == 0 && (((x + 1024) as u64) >> 11) == (x >> 11)
        + 1 && (((x + 1024) as u64) & 1023) == (x & 1023)) by (bit_vector);
    assert((x & 1024) == 0 && (x & 1023) < 1023 ==> x + 1 <= 0xffff_ffff_ffff_ffffu64 && (((x + 1) as u64) >> 11) == (x >> 11) && (((x + 1) as u64) & 1024) == 0 && (((x + 1) as u64) & 1023) == (x & 1023) + 1)
        by (bit_vector);
    assert((x & 1023) > 0 ==> (((x - 1) as u64) >> 11) == (x >> 11) && (((x - 1) as u64) & 1024) == (x & 1024)
        && (((x - 1) as u64) & 1023) == (x & 1023) - 1) by (bit_vector);
}

/// Validation. A word under an exclusive holder validates no snapshot; once
/// the section is released, every snapshot taken before it fails, and a
/// snapshot of the released word is admitted and validates.
pub proof fn lemma_validation(held: u64, v: u64)
    requires
        word_exclusive(held),
        word_version(held) + 1 < VERSION_LIMIT,
        v <= word_version(held),
    ensures
        !validates(held, v),
        !validates(release_exclusive_word(held), v),
        optimistic_step_spec(true, release_exclusive_word(held)) == Step::Enter,
        validates(release_exclusive_word(held), word_version(release_exclusive_word(held))),
{
    lemma_version_monotonicity(held, true);
}

} // verus!

verus! {

/// The name of a lock mode as lock tracking reports it: `None` for
/// optimistic, `Some(false)` for shared, `Some(true)` for exclusive.
pub fn lock_name(mode: Option<bool>) -> (r: &'static str)
    ensures
        mode is None ==> r@ == "optimistic"@,
        mode == Some(false) ==> r@ == "shared"@,
        mode == Some(true) ==> r@ == "exclusive"@,
{
    match mode {
        None => "optimistic",
        Some(false) => "shared",
        Some(true) => "exclusive",
    }
}

} // verus!
