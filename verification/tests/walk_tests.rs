use lockmem::error::{Error, WinApi};
use lockmem::handle::{Handle, ProcessHandle};
use lockmem::lock::{LockAction, LockEvent, MemoryRegion, STATUS_SUCCESS, STATUS_WORKING_SET_QUOTA};
use lockmem::process::VirtMemIterator;
use lockmem::walk::{LockWalk, WalkAction, WalkEvent};

const MEM_COMMIT: u32 = 0x1000;
const MEM_FREE: u32 = 0x10000;
const PAGE_READWRITE: u32 = 0x04;

fn cursor(min: usize, max: usize) -> VirtMemIterator {
    let units: Vec<u16> = "Process".encode_utf16().collect();
    let h = ProcessHandle::from_handle(Handle::adopt(8), 0, &units).unwrap();
    VirtMemIterator::new(h, min, max)
}

fn queried(base: usize, size: usize, state: u32) -> WalkEvent {
    WalkEvent::Queried {
        written: 48,
        region: MemoryRegion { base, size, state, protect: PAGE_READWRITE },
        last_error: 0,
    }
}

#[test]
fn empty_address_space_locks_nothing() {
    let (_, action) = LockWalk::new(cursor(0x30000, 0x30000));
    assert!(matches!(action, WalkAction::Done(Ok(0))));
}

#[test]
fn walk_locks_committed_regions_and_skips_free_ones() {
    let (mut walk, action) = LockWalk::new(cursor(0x10000, 0x40000));
    assert!(matches!(action, WalkAction::Query { addr: 0x10000 }));

    let a = walk.step(queried(0x10000, 0x10000, MEM_FREE));
    assert!(matches!(a, WalkAction::Query { addr: 0x20000 }));

    let a = walk.step(queried(0x20000, 0x8000, MEM_COMMIT));
    assert!(matches!(a, WalkAction::Kernel(LockAction::Lock { base: 0x20000, len: 0x8000 })));
    assert_eq!(walk.amount(), 0x8000);
    assert!(walk.current_request().is_some());

    let a = walk.step(WalkEvent::Kernel(LockEvent::Locked {
        status: STATUS_SUCCESS,
        base: 0x20000,
        len: 0x8000,
    }));
    assert!(matches!(a, WalkAction::Locked { amount: 0x8000 }));
    assert_eq!(walk.next_frame(), 0);
    assert_eq!(walk.spinner(), 1);

    let a = walk.step(WalkEvent::Continue);
    assert!(matches!(a, WalkAction::Query { addr: 0x28000 }));

    let a = walk.step(queried(0x28000, 0x18000, MEM_COMMIT));
    assert!(matches!(a, WalkAction::Kernel(LockAction::Lock { base: 0x28000, len: 0x18000 })));
    // The quota path goes through the walk too.
    let a = walk.step(WalkEvent::Kernel(LockEvent::Locked {
        status: STATUS_WORKING_SET_QUOTA,
        base: 0x28000,
        len: 0x18000,
    }));
    assert!(matches!(a, WalkAction::Kernel(LockAction::QueryWorkingSet)));
    let a = walk.step(WalkEvent::Kernel(LockEvent::WorkingSet(Ok((0x100000, 0x200000)))));
    assert!(matches!(
        a,
        WalkAction::Kernel(LockAction::SetWorkingSet { minimum: 0x118000, maximum: 0x218000, flags: 9 })
    ));
    let a = walk.step(WalkEvent::Kernel(LockEvent::WorkingSetSet(Ok(()))));
    assert!(matches!(a, WalkAction::Kernel(LockAction::Lock { base: 0x28000, len: 0x18000 })));
    let a = walk.step(WalkEvent::Kernel(LockEvent::Locked {
        status: STATUS_SUCCESS,
        base: 0x28000,
        len: 0x18000,
    }));
    assert!(matches!(a, WalkAction::Locked { amount: 0x20000 }));

    let a = walk.step(WalkEvent::Continue);
    match a {
        WalkAction::Done(Ok(n)) => assert_eq!(n, 0x20000),
        other => panic!("unexpected {other:?}"),
    }
}

#[test]
fn failed_query_ends_the_walk() {
    let (mut walk, _) = LockWalk::new(cursor(0x10000, 0x40000));
    let a = walk.step(WalkEvent::Queried {
        written: 0,
        region: MemoryRegion { base: 0, size: 0, state: 0, protect: 0 },
        last_error: 6,
    });
    match a {
        WalkAction::Done(Err(Error::ApiFailed { api, code })) => {
            assert_eq!(api, WinApi::VirtualQueryEx);
            assert_eq!(code as u32, 0x80070006);
        }
        other => panic!("unexpected {other:?}"),
    }
}

#[test]
fn failed_lock_ends_the_walk() {
    let (mut walk, _) = LockWalk::new(cursor(0x10000, 0x40000));
    walk.step(queried(0x10000, 0x1000, MEM_COMMIT));
    let denied = 0xC0000022u32 as i32;
    let a = walk.step(WalkEvent::Kernel(LockEvent::Locked { status: denied, base: 0x10000, len: 0x1000 }));
    assert!(matches!(a, WalkAction::Done(Err(Error::LockFailed { status })) if status == denied));
    // The failed range was counted before it was tried.
    assert_eq!(walk.amount(), 0x1000);
}

#[test]
fn last_skipped_region_past_the_end_finishes() {
    let (mut walk, _) = LockWalk::new(cursor(0x10000, 0x20000));
    let a = walk.step(queried(0x10000, 0x20000, MEM_FREE));
    assert!(matches!(a, WalkAction::Done(Ok(0))));
}
