use lockmem::error::Error;
use lockmem::lock::{
    classify_region, progress_due, LockAction, LockEvent, LockProgress, LockRequest, LockStage,
    MemoryRegion, RegionAction, GROWN_WORKING_SET_FLAGS, MEM_FREE, MEM_RESERVE, PAGE_GUARD,
    PAGE_NOACCESS, STATUS_INCOMPATIBLE_FILE_MAP, STATUS_SUCCESS, STATUS_WAS_LOCKED,
    STATUS_WORKING_SET_QUOTA,
};

const MEM_COMMIT: u32 = 0x1000;
const PAGE_READWRITE: u32 = 0x04;

fn region(base: usize, size: usize, state: u32, protect: u32) -> MemoryRegion {
    MemoryRegion { base, size, state, protect }
}

#[test]
fn status_constants_have_their_kernel_values() {
    assert_eq!(STATUS_INCOMPATIBLE_FILE_MAP as u32, 0xC000004D);
    assert_eq!(STATUS_WORKING_SET_QUOTA as u32, 0xC00000A1);
    assert_eq!(STATUS_WAS_LOCKED as u32, 0x40000019);
    assert_eq!(GROWN_WORKING_SET_FLAGS, 1 | 8);
}

#[test]
fn committed_readable_region_is_locked() {
    let r = region(0x10000, 0x3000, MEM_COMMIT, PAGE_READWRITE);
    assert_eq!(classify_region(&r), RegionAction::Lock { start: 0x10000, end: 0x13000 });
}

#[test]
fn free_and_reserved_regions_are_skipped() {
    assert_eq!(classify_region(&region(0, 0x1000, MEM_FREE, PAGE_NOACCESS)), RegionAction::SkipFree);
    assert_eq!(
        classify_region(&region(0, 0x1000, MEM_RESERVE, PAGE_READWRITE)),
        RegionAction::SkipReserved
    );
    // Free wins over reserved, and state wins over protection.
    assert_eq!(
        classify_region(&region(0, 0x1000, MEM_FREE | MEM_RESERVE, PAGE_GUARD)),
        RegionAction::SkipFree
    );
}

#[test]
fn guard_and_no_access_regions_are_skipped() {
    assert_eq!(
        classify_region(&region(0, 0x1000, MEM_COMMIT, PAGE_READWRITE | PAGE_GUARD)),
        RegionAction::SkipGuard
    );
    assert_eq!(
        classify_region(&region(0, 0x1000, MEM_COMMIT, PAGE_NOACCESS)),
        RegionAction::SkipNoAccess
    );
    assert_eq!(
        classify_region(&region(0, 0x1000, MEM_COMMIT, PAGE_NOACCESS | PAGE_GUARD)),
        RegionAction::SkipGuard
    );
}

#[test]
fn locked_range_end_saturates() {
    let r = region(usize::MAX - 0xFFF, 0x2000, MEM_COMMIT, PAGE_READWRITE);
    match classify_region(&r) {
        RegionAction::Lock { start, end } => {
            assert_eq!(start, (usize::MAX - 0xFFF) as u64);
            assert_eq!(end, u64::MAX);
        }
        other => panic!("unexpected {other:?}"),
    }
}

#[test]
fn progress_counts_and_saturates() {
    let mut p = LockProgress::new();
    assert_eq!(p.amount, 0);
    p.record(0x1000, 0x3000);
    assert_eq!(p.amount, 0x2000);
    p.record(5, 5);
    assert_eq!(p.amount, 0x2000);
    p.record(0, u64::MAX);
    assert_eq!(p.amount, u64::MAX);
    assert_eq!(p.spinner, 0);
}

#[test]
fn spinner_cycles_through_four_frames() {
    let mut p = LockProgress::new();
    let frames: Vec<usize> = (0..6).map(|_| p.next_frame()).collect();
    assert_eq!(frames, vec![0, 1, 2, 3, 0, 1]);
    assert_eq!(p.spinner, 6);
}

#[test]
fn progress_is_shown_at_most_once_a_second() {
    assert!(!progress_due(0));
    assert!(progress_due(1));
    assert!(progress_due(60));
}

fn ok_len(a: LockAction) -> u64 {
    match a {
        LockAction::Finish(Ok(n)) => n,
        other => panic!("unexpected {other:?}"),
    }
}

#[test]
fn first_lock_success_finishes_with_requested_length() {
    let (mut req, first) = LockRequest::new(0x1000, 0x5000);
    assert!(matches!(first, LockAction::Lock { base: 0x1000, len: 0x4000 }));
    let a = req.step(LockEvent::Locked { status: STATUS_SUCCESS, base: 0x1000, len: 0x4000 });
    assert_eq!(ok_len(a), 0x4000);
    assert_eq!(req.stage, LockStage::Finished);
}

#[test]
fn locked_already_and_incompatible_maps_count_as_success() {
    for status in [STATUS_WAS_LOCKED, STATUS_INCOMPATIBLE_FILE_MAP] {
        let (mut req, _) = LockRequest::new(0x1000, 0x1800);
        let a = req.step(LockEvent::Locked { status, base: 0x1000, len: 0x1000 });
        // The length asked for, not the rounded one.
        assert_eq!(ok_len(a), 0x800);
    }
}

#[test]
fn other_first_failure_is_final() {
    let (mut req, _) = LockRequest::new(0, 0x1000);
    let denied = 0xC0000022u32 as i32;
    let a = req.step(LockEvent::Locked { status: denied, base: 0, len: 0x1000 });
    match a {
        LockAction::Finish(Err(Error::LockFailed { status })) => assert_eq!(status, denied),
        other => panic!("unexpected {other:?}"),
    }
}

#[test]
fn quota_failure_grows_working_set_and_retries() {
    let (mut req, _) = LockRequest::new(0x1800, 0x2800);
    let a = req.step(LockEvent::Locked { status: STATUS_WORKING_SET_QUOTA, base: 0x1000, len: 0x2000 });
    assert!(matches!(a, LockAction::QueryWorkingSet));
    let a = req.step(LockEvent::WorkingSet(Ok((0x10000, 0x20000))));
    match a {
        LockAction::SetWorkingSet { minimum, maximum, flags } => {
            assert_eq!(minimum, 0x12000);
            assert_eq!(maximum, 0x22000);
            assert_eq!(flags, 9);
        }
        other => panic!("unexpected {other:?}"),
    }
    let a = req.step(LockEvent::WorkingSetSet(Ok(())));
    assert!(matches!(a, LockAction::Lock { base: 0x1000, len: 0x2000 }));
    assert_eq!(req.stage, LockStage::SecondLock);
    let a = req.step(LockEvent::Locked { status: STATUS_SUCCESS, base: 0x1000, len: 0x2000 });
    assert_eq!(ok_len(a), 0x1000);
}

#[test]
fn second_failure_reports_the_requested_range() {
    let (mut req, _) = LockRequest::new(0x1800, 0x2800);
    req.step(LockEvent::Locked { status: STATUS_WORKING_SET_QUOTA, base: 0x1000, len: 0x2000 });
    req.step(LockEvent::WorkingSet(Ok((1, 2))));
    req.step(LockEvent::WorkingSetSet(Ok(())));
    // Only plain success counts the second time.
    let a = req.step(LockEvent::Locked { status: STATUS_WAS_LOCKED, base: 0x1000, len: 0x2000 });
    match a {
        LockAction::Finish(Err(Error::RelockFailed { start, end, status })) => {
            assert_eq!((start, end, status), (0x1800, 0x2800, STATUS_WAS_LOCKED));
        }
        other => panic!("unexpected {other:?}"),
    }
}

#[test]
fn working_set_errors_are_passed_on() {
    let (mut req, _) = LockRequest::new(0, 0x1000);
    req.step(LockEvent::Locked { status: STATUS_WORKING_SET_QUOTA, base: 0, len: 0x1000 });
    let a = req.step(LockEvent::WorkingSet(Err(Error::Win32 { code: 7 })));
    assert!(matches!(a, LockAction::Finish(Err(Error::Win32 { code: 7 }))));

    let (mut req, _) = LockRequest::new(0, 0x1000);
    req.step(LockEvent::Locked { status: STATUS_WORKING_SET_QUOTA, base: 0, len: 0x1000 });
    req.step(LockEvent::WorkingSet(Ok((0, 0))));
    let a = req.step(LockEvent::WorkingSetSet(Err(Error::Win32 { code: 8 })));
    assert!(matches!(a, LockAction::Finish(Err(Error::Win32 { code: 8 }))));
    assert_eq!(req.stage, LockStage::Finished);
}
