use seqlock_bm::o_ptr::{compare_bytes, le_bytes_value};
use seqlock_bm::{
    Attempt, BufferManageGuardUpgrade, OlcVersion, BufferManagerGuard, ExclusiveGuard, Frame, OPtr, OptimisticGuard, PageId, SimpleBm,
    SimpleGuardO, SimpleGuardS, SimpleGuardX,
};
use std::cmp::Ordering;

fn optimistic(bm: &SimpleBm, pid: PageId) -> SimpleGuardO<'_> {
    match SimpleGuardO::try_acquire(bm, pid) {
        Attempt::Acquired(g) => g,
        _ => panic!("page is not held exclusively"),
    }
}

fn exclusive(bm: &SimpleBm, pid: PageId) -> SimpleGuardX<'_> {
    match SimpleGuardX::try_acquire(bm, pid) {
        Attempt::Acquired(g) => g,
        _ => panic!("page is free"),
    }
}

#[test]
fn write_under_exclusive_bumps_version() {
    let bm = SimpleBm::new(1, 64);
    let mut g = bm.allocate().unwrap().expect("one frame is free");
    assert_eq!(g.page_id(), PageId { x: 0 });
    assert!(g.write_bytes(0, &[1, 2, 3]).is_ok());
    assert_eq!(g.release().unwrap().x, 1);
    let mut g = exclusive(&bm, PageId { x: 0 });
    assert!(g.write_bytes(3, &[4]).is_ok());
    assert_eq!(g.release().unwrap().x, 2);
    let o = optimistic(&bm, PageId { x: 0 });
    assert_eq!(o.o_ptr().sub(0, 5).unwrap().load_slice_to_vec(), vec![1, 2, 3, 4, 0]);
    assert_eq!(o.check().unwrap().x, 2);
}

#[test]
fn ten_shared_guards_then_exclusive() {
    let bm = SimpleBm::new(1, 64);
    let pid = PageId { x: 0 };
    let mut held = Vec::new();
    for _ in 0..10 {
        match SimpleGuardS::try_acquire(&bm, pid) {
            Attempt::Acquired(g) => held.push(g),
            _ => panic!("shared holders coexist"),
        }
    }
    for g in held {
        assert_eq!(g.release().unwrap().x, 0);
    }
    assert!(matches!(SimpleGuardX::try_acquire(&bm, pid), Attempt::Acquired(_)));
}

#[test]
fn stale_snapshot_fails_and_retry_succeeds() {
    let bm = SimpleBm::new(1, 64);
    let pid = PageId { x: 0 };
    let o = optimistic(&bm, pid);
    let mut x = exclusive(&bm, pid);
    x.write_bytes(0, &[9]).unwrap();
    x.release().unwrap();
    assert!(o.check().is_err());
    let mut attempts = 0;
    let seen = loop {
        attempts += 1;
        let o = optimistic(&bm, pid);
        let b = o.o_ptr().i(0).unwrap().load_slice_to_vec();
        if o.check().is_ok() {
            break b;
        }
    };
    assert_eq!(attempts, 1);
    assert_eq!(seen, vec![9]);
}

#[test]
fn u64_read_is_bounds_checked() {
    let bm = SimpleBm::new(1, 4096);
    let pid = PageId { x: 0 };
    let mut x = exclusive(&bm, pid);
    x.write_bytes(4088, &[1, 2, 3, 4, 5, 6, 7, 8]).unwrap();
    x.release().unwrap();
    let o = optimistic(&bm, pid);
    assert!(o.o_ptr().read_unaligned_nonatomic_u64(4090).is_err());
    assert_eq!(o.o_ptr().read_unaligned_nonatomic_u64(4088).unwrap(), u64::from_le_bytes([1, 2, 3, 4, 5, 6, 7, 8]));
    assert_eq!(o.o_ptr().read_unaligned_nonatomic_u16(4094).unwrap(), 0x0807);
    assert!(o.o_ptr().read_unaligned_nonatomic_u16(4095).is_err());
    assert!(o.check().is_ok());
}

#[test]
fn alloc_dealloc_round_trip() {
    let bm = SimpleBm::new(2, 16);
    let a = bm.allocate().unwrap().unwrap();
    let b = bm.allocate().unwrap().unwrap();
    assert_eq!(a.page_id().x, 1);
    assert_eq!(b.page_id().x, 0);
    assert!(bm.allocate().unwrap().is_none());
    b.dealloc().unwrap();
    let c = bm.allocate().unwrap().unwrap();
    assert_eq!(c.page_id().x, 0);
    c.dealloc().unwrap();
    a.dealloc().unwrap();
    let mut ids = vec![bm.allocate().unwrap().unwrap().page_id().x, bm.allocate().unwrap().unwrap().page_id().x];
    ids.sort();
    assert_eq!(ids, vec![0, 1]);
}

#[test]
fn writer_and_optimistic_reader_interleaved() {
    let bm = SimpleBm::new(4, 64);
    let mut recorded = Vec::new();
    for counter in 1..=10_000u64 {
        let mut g = bm.allocate().unwrap().unwrap();
        let pid = g.page_id();
        let o = optimistic_or_none(&bm, pid);
        assert!(o.is_none());
        g.write_bytes(0, &counter.to_le_bytes()).unwrap();
        g.dealloc().unwrap();
        let o = optimistic(&bm, pid);
        let v = o.o_ptr().read_unaligned_nonatomic_u64(0).unwrap();
        if o.check().is_ok() {
            recorded.push(v);
        }
    }
    assert_eq!(recorded.len(), 10_000);
    for (i, v) in recorded.iter().enumerate() {
        assert_eq!(*v, i as u64 + 1);
    }
    let mut free = Vec::new();
    while let Some(g) = bm.allocate().unwrap() {
        free.push(g.page_id().x);
    }
    free.sort();
    assert_eq!(free, vec![0, 1, 2, 3]);
}

fn optimistic_or_none(bm: &SimpleBm, pid: PageId) -> Option<SimpleGuardO<'_>> {
    match SimpleGuardO::try_acquire(bm, pid) {
        Attempt::Acquired(g) => Some(g),
        _ => None,
    }
}

#[test]
fn upgrades_keep_or_refuse_the_snapshot() {
    let bm = SimpleBm::new(1, 8);
    let pid = PageId { x: 0 };
    let o = optimistic(&bm, pid);
    let s = match BufferManageGuardUpgrade::<SimpleGuardS>::try_upgrade(o) {
        Attempt::Acquired(s) => s,
        _ => panic!("snapshot is current"),
    };
    assert_eq!(s.page_id(), pid);
    s.release().unwrap();
    let x = match BufferManageGuardUpgrade::<SimpleGuardX>::try_upgrade(o) {
        Attempt::Acquired(x) => x,
        _ => panic!("snapshot is current"),
    };
    x.release().unwrap();
    let s: Attempt<SimpleGuardS> = o.try_upgrade();
    assert!(matches!(s, Attempt::Rejected(_)));
    let x: Attempt<SimpleGuardX> = o.try_upgrade();
    assert!(matches!(x, Attempt::Rejected(_)));
}

#[test]
fn stale_guard_is_silent_while_unwinding() {
    let bm = SimpleBm::new(1, 8);
    let pid = PageId { x: 0 };
    let o = optimistic(&bm, pid);
    exclusive(&bm, pid).release().unwrap();
    assert!(o.release_on_drop(true).is_ok());
    assert!(o.release_on_drop(false).is_err());
    assert!(o.release().is_err());
    o.release_unchecked();
}

#[test]
fn written_exclusive_guard_may_not_drop_while_unwinding() {
    let bm = SimpleBm::new(1, 8);
    let pid = PageId { x: 0 };
    let mut x = exclusive(&bm, pid);
    x.write_bytes(0, &[1]).unwrap();
    assert!(x.release_on_drop(true).is_none());
    assert!(!matches!(SimpleGuardX::try_acquire(&bm, pid), Attempt::Acquired(_)));
    assert_eq!(bm.lock(pid).unlock_exclusive().unwrap().x, 1);
    let mut x = exclusive(&bm, pid);
    x.write_bytes(0, &[2]).unwrap();
    x.reset_written();
    assert_eq!(x.release_on_drop(true).unwrap().unwrap().x, 2);
    assert_eq!(exclusive(&bm, pid).release_on_drop(false).unwrap().unwrap().x, 3);
}

#[test]
fn out_of_range_views_fail() {
    let f = Frame::zeroed(4);
    let p = OPtr::from_ref(&f);
    assert_eq!(p.len(), 4);
    assert!(p.sub(2, 2).is_ok());
    assert!(p.sub(3, 2).is_err());
    assert!(p.sub(usize::MAX, 2).is_err());
    assert!(p.i(4).is_err());
    assert_eq!(p.sub(1, 3).unwrap().len(), 3);
}

#[test]
fn byte_comparison_is_memcmp_then_length() {
    assert_eq!(compare_bytes(&[1, 2, 3], &[1, 2, 4]), Ordering::Less);
    assert_eq!(compare_bytes(&[1, 3], &[1, 2, 4]), Ordering::Greater);
    assert_eq!(compare_bytes(&[1, 2], &[1, 2, 4]), Ordering::Less);
    assert_eq!(compare_bytes(&[1, 2, 4], &[1, 2]), Ordering::Greater);
    assert_eq!(compare_bytes(&[], &[]), Ordering::Equal);
    let f = Frame::zeroed(3);
    f.store(0, 5);
    let p = OPtr::from_ref(&f);
    assert_eq!(p.mem_cmp(&[5, 0, 0]), Ordering::Equal);
    assert_eq!(p.mem_cmp(&[5, 0]), Ordering::Greater);
    assert_eq!(p.mem_cmp(&[6]), Ordering::Less);
}

#[test]
fn little_endian_values() {
    assert_eq!(le_bytes_value(&vec![0x34, 0x12]), 0x1234);
    assert_eq!(le_bytes_value(&vec![]), 0);
    assert_eq!(le_bytes_value(&vec![0xff; 8]), u64::MAX);
}

#[test]
fn load_bytes_copies_the_range() {
    let f = Frame::zeroed(4);
    f.store(1, 7);
    f.store(2, 8);
    let mut dst = vec![0u8; 2];
    OPtr::from_ref(&f).sub(1, 2).unwrap().load_bytes(&mut dst);
    assert_eq!(dst, vec![7, 8]);
}

#[test]
fn allocate_popped_locks_the_popped_frame() {
    let bm = SimpleBm::new(2, 8);
    assert!(bm.allocate_popped(None).unwrap().is_none());
    assert!(bm.allocate_popped(Some(2)).unwrap().is_none());
    let g = bm.allocate_popped(Some(0)).unwrap().unwrap();
    assert_eq!(g.page_id(), PageId { x: 0 });
    assert!(matches!(SimpleGuardS::try_acquire(&bm, PageId { x: 0 }), Attempt::Busy));
    assert_eq!(g.release().unwrap().x, 1);
}

#[test]
fn optimistic_guard_at_a_version() {
    let bm = SimpleBm::new(1, 8);
    let pid = PageId { x: 0 };
    assert!(matches!(SimpleGuardO::try_acquire_version(&bm, pid, OlcVersion { x: 1 }), Attempt::Rejected(_)));
    let o = match SimpleGuardO::try_acquire_version(&bm, pid, OlcVersion { x: 0 }) {
        Attempt::Acquired(o) => o,
        _ => panic!("version 0 is current"),
    };
    assert_eq!(o.check().unwrap(), OlcVersion { x: 0 });
}

#[test]
fn slice_view_indexes_whole_elements() {
    let f = Frame::zeroed(12);
    f.store(4, 9);
    let s = OPtr::from_ref(&f).as_slice(4);
    assert_eq!(s.len(), 3);
    assert_eq!(s.i(1).unwrap().load_slice_to_vec(), vec![9, 0, 0, 0]);
    assert!(s.i(3).is_err());
    assert_eq!(s.i(2).unwrap().len(), 4);
}
