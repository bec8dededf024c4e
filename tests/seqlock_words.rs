use seqlock_bm::seqlock::{
    claim_attempt, drained, optimistic_attempt, shared_attempt, claim_step, count_of, exclusive_step, is_exclusive, lock_name, optimistic_step, shared_step,
    validate_word, version_after_exclusive, version_of, Attempt, Claim, SeqLock, Step, VersionFilter,
};
use seqlock_bm::{LockMisuse, OlcVersion, OptimisticError};

#[test]
fn word_fields_are_split_at_ten_and_eleven_bits() {
    let x: u64 = (5 << 11) | 1024 | 7;
    assert_eq!(count_of(x), 7);
    assert!(is_exclusive(x));
    assert_eq!(version_of(x), 5);
    assert!(!is_exclusive(5 << 11));
}

#[test]
fn shared_step_adds_one_holder() {
    assert!(matches!(shared_step(true, 3 << 11), Step::Install(v) if v == (3 << 11) + 1));
    assert!(matches!(shared_step(false, 0), Step::Reject));
    assert!(matches!(shared_step(true, 1024), Step::Wait));
    assert!(matches!(shared_step(true, 1023), Step::Wait));
    assert!(matches!(shared_step(true, 1022), Step::Install(1023)));
}

#[test]
fn exclusive_step_sets_the_flag() {
    assert!(matches!(exclusive_step(true, (2 << 11) | 3), Step::Install(v) if v == (2 << 11) | 1024 | 3));
    assert!(matches!(exclusive_step(true, 1024), Step::Wait));
    assert!(matches!(exclusive_step(false, 0), Step::Reject));
}

#[test]
fn claim_step_decides_on_the_prior_word() {
    assert!(matches!(claim_step(true, 1024), Claim::Contended));
    assert!(matches!(claim_step(false, 0), Claim::Undo));
    assert!(matches!(claim_step(true, 0), Claim::Ready));
    assert!(matches!(claim_step(true, 2), Claim::Drain));
}

#[test]
fn optimistic_step_never_writes() {
    assert!(matches!(optimistic_step(true, 2), Step::Enter));
    assert!(matches!(optimistic_step(true, 1024), Step::Wait));
    assert!(matches!(optimistic_step(false, 0), Step::Reject));
}

#[test]
fn validation_ignores_the_shared_count() {
    assert!(validate_word((4 << 11) | 9, OlcVersion { x: 4 }).is_ok());
    assert!(validate_word((4 << 11) | 1024, OlcVersion { x: 4 }).is_err());
    assert!(validate_word(5 << 11, OlcVersion { x: 4 }).is_err());
}

#[test]
fn exclusive_release_carries_into_the_version() {
    assert_eq!(version_after_exclusive(1024).x, 1);
    assert_eq!(version_after_exclusive((41 << 11) | 1024 | 3).x, 42);
}

#[test]
fn filters_accept_as_documented() {
    assert!(().check(17).is_ok());
    assert_eq!(().map_r(17), OlcVersion { x: 17 });
    assert!(OlcVersion { x: 3 }.check(3).is_ok());
    assert!(OlcVersion { x: 3 }.check(4).is_err());
}

#[test]
fn lock_names() {
    assert_eq!(lock_name(None), "optimistic");
    assert_eq!(lock_name(Some(false)), "shared");
    assert_eq!(lock_name(Some(true)), "exclusive");
}

#[test]
fn error_message() {
    assert_eq!(OptimisticError::new().message(), "optimistic error");
}

#[test]
fn force_lock_then_unlock_counts_versions() {
    let l = SeqLock::new();
    assert_eq!(l.force_lock_exclusive().unwrap().x, 0);
    assert_eq!(l.unlock_exclusive().unwrap().x, 1);
    assert_eq!(l.force_lock_exclusive().unwrap().x, 1);
    assert_eq!(l.unlock_exclusive().unwrap().x, 2);
}

#[test]
fn shared_holds_keep_the_version() {
    let l = SeqLock::new();
    for _ in 0..10 {
        assert!(matches!(l.try_lock_shared(()), Attempt::Acquired(v) if v.x == 0));
    }
    for _ in 0..10 {
        assert_eq!(l.unlock_shared().unwrap().x, 0);
    }
    assert!(l.poll_drained());
    assert!(matches!(l.try_lock_exclusive(()), Attempt::Acquired(v) if v.x == 0));
}

#[test]
fn exclusive_excludes_everyone() {
    let l = SeqLock::new();
    assert!(matches!(l.try_lock_exclusive(()), Attempt::Acquired(_)));
    assert!(matches!(l.try_lock_shared(()), Attempt::Busy));
    assert!(!matches!(l.try_lock_exclusive(()), Attempt::Acquired(_)));
    assert!(matches!(l.try_lock_optimistic(()), Attempt::Busy));
    assert_eq!(l.unlock_exclusive().unwrap().x, 1);
    assert!(matches!(l.try_lock_optimistic(()), Attempt::Acquired(v) if v.x == 1));
}

#[test]
fn exclusive_waits_for_shared_holders() {
    let l = SeqLock::new();
    assert!(matches!(l.try_lock_shared(()), Attempt::Acquired(_)));
    assert!(matches!(l.try_lock_exclusive(()), Attempt::Draining(v) if v.x == 0));
    assert!(!l.poll_drained());
    l.unlock_shared().unwrap();
    assert!(l.poll_drained());
    assert_eq!(l.unlock_exclusive().unwrap().x, 1);
}

#[test]
fn filters_reject_other_versions() {
    let l = SeqLock::new();
    assert!(matches!(l.try_lock_shared(OlcVersion { x: 1 }), Attempt::Rejected(_)));
    assert!(matches!(l.try_lock_exclusive(OlcVersion { x: 1 }), Attempt::Rejected(_)));
    assert!(matches!(l.try_lock_optimistic(OlcVersion { x: 1 }), Attempt::Rejected(_)));
    assert!(matches!(l.try_lock_exclusive(OlcVersion { x: 0 }), Attempt::Acquired(())));
    l.unlock_exclusive().unwrap();
}

#[test]
fn snapshot_fails_after_an_exclusive_section() {
    let l = SeqLock::new();
    let v = match l.try_lock_optimistic(()) {
        Attempt::Acquired(v) => v,
        _ => panic!("lock is free"),
    };
    assert!(l.try_unlock_optimistic(v).is_ok());
    l.force_lock_exclusive().unwrap();
    assert!(l.try_unlock_optimistic(v).is_err());
    l.unlock_exclusive().unwrap();
    assert!(l.try_unlock_optimistic(v).is_err());
    assert!(l.try_unlock_optimistic(OlcVersion { x: 1 }).is_ok());
}

#[test]
fn shared_attempt_follows_word_and_swap() {
    assert!(matches!(shared_attempt(&(), 7 << 11, true), Attempt::Acquired(v) if v.x == 7));
    assert!(matches!(shared_attempt(&(), 7 << 11, false), Attempt::Retry));
    assert!(matches!(shared_attempt(&(), 1024, true), Attempt::Busy));
    assert!(matches!(shared_attempt(&(), 1023, true), Attempt::Busy));
    assert!(matches!(shared_attempt(&OlcVersion { x: 1 }, 0, true), Attempt::Rejected(_)));
    assert!(matches!(shared_attempt(&OlcVersion { x: 0 }, 0, true), Attempt::Acquired(())));
}

#[test]
fn claim_attempt_follows_prior_word() {
    assert!(matches!(claim_attempt(&(), 3 << 11), Attempt::Acquired(v) if v.x == 3));
    assert!(matches!(claim_attempt(&(), (3 << 11) | 2), Attempt::Draining(v) if v.x == 3));
    assert!(matches!(claim_attempt(&(), 1024), Attempt::Busy));
    assert!(matches!(claim_attempt(&OlcVersion { x: 1 }, 0), Attempt::Rejected(_)));
}

#[test]
fn optimistic_attempt_follows_word() {
    assert!(matches!(optimistic_attempt(&(), (5 << 11) | 3), Attempt::Acquired(v) if v.x == 5));
    assert!(matches!(optimistic_attempt(&(), 1024), Attempt::Busy));
    assert!(matches!(optimistic_attempt(&OlcVersion { x: 2 }, 0), Attempt::Rejected(_)));
}

#[test]
fn drained_reads_the_count() {
    assert!(drained(1024 | (9 << 11)));
    assert!(!drained(1024 | 1));
}

#[test]
fn refused_claim_clears_its_flag() {
    let l = SeqLock::new();
    l.force_lock_exclusive().unwrap();
    l.unlock_exclusive().unwrap();
    // The word is at version 1; a claim at version 0 is refused and leaves
    // the lock free.
    assert!(matches!(l.try_lock_exclusive(OlcVersion { x: 0 }), Attempt::Rejected(_)));
    assert!(matches!(l.try_lock_optimistic(()), Attempt::Acquired(v) if v.x == 1));
    assert!(matches!(l.try_lock_exclusive(()), Attempt::Acquired(v) if v.x == 1));
}

#[test]
fn releases_without_a_hold_are_misuse() {
    let l = SeqLock::new();
    assert!(l.unlock_exclusive().is_err());
    let l = SeqLock::new();
    assert!(l.unlock_shared().is_err());
    let l = SeqLock::new();
    assert_eq!(l.force_lock_exclusive().unwrap().x, 0);
    let second: Result<OlcVersion, LockMisuse> = l.force_lock_exclusive();
    assert!(second.is_err());
    let l = SeqLock::new();
    assert!(matches!(l.try_lock_shared(()), Attempt::Acquired(_)));
    assert!(l.force_lock_exclusive().is_err());
}
