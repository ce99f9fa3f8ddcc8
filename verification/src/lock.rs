//! Locking the regions of a process's address space.
//!
//! A walk over the address space hands each region to [`classify_region`],
//! which says whether to skip it or lock it. Locking one range is a short
//! conversation with the kernel, driven by [`LockRequest`]: try to lock it;
//! if the working-set quota is too small, read the working-set limits, grow
//! both by the length of the range, and try once more.
use vstd::prelude::*;
use crate::error::Error;

verus! {

/// `MEM_FREE`: the region is not allocated.
pub const MEM_FREE: u32 = 0x10000;
/// `MEM_RESERVE`: the region is reserved but not committed.
pub const MEM_RESERVE: u32 = 0x2000;
/// `PAGE_GUARD`: the region is a guard page.
pub const PAGE_GUARD: u32 = 0x100;
/// `PAGE_NOACCESS`: the region cannot be accessed.
pub const PAGE_NOACCESS: u32 = 0x1;

/// `STATUS_SUCCESS`.
pub const STATUS_SUCCESS: i32 = 0;
/// `STATUS_INCOMPATIBLE_FILE_MAP` (0xC000004D).
pub const STATUS_INCOMPATIBLE_FILE_MAP: i32 = -1073741747i32;
/// `STATUS_WAS_LOCKED` (0x40000019).
pub const STATUS_WAS_LOCKED: i32 = 0x40000019i32;
/// `STATUS_WORKING_SET_QUOTA` (0xC00000A1).
pub const STATUS_WORKING_SET_QUOTA: i32 = -1073741663i32;

/// `QUOTA_LIMITS_HARDWS_MIN_ENABLE`.
pub const QUOTA_LIMITS_HARDWS_MIN_ENABLE: u32 = 0x1;
/// `QUOTA_LIMITS_HARDWS_MAX_DISABLE`.
pub const QUOTA_LIMITS_HARDWS_MAX_DISABLE: u32 = 0x8;
/// The flags the working set is set with when it is grown: a hard minimum and
/// no hard maximum.
pub const GROWN_WORKING_SET_FLAGS: u32 = 0x9;

/// The grown working set has a hard minimum and no hard maximum.
pub proof fn lemma_grown_flags()
    ensures
        GROWN_WORKING_SET_FLAGS == QUOTA_LIMITS_HARDWS_MIN_ENABLE | QUOTA_LIMITS_HARDWS_MAX_DISABLE,
{
    assert(0x9u32 == 0x1u32 | 0x8u32) by (bit_vector);
}

/// `MAP_PROCESS`: lock the pages in the process's working set.
pub const MAP_PROCESS: u32 = 1;

/// One region of a process's address space, as `VirtualQueryEx` describes it.
#[derive(Debug, Clone, Copy, PartialEq, Eq, Structural)]
pub struct MemoryRegion {
    pub base: usize,
    pub size: usize,
    pub state: u32,
    pub protect: u32,
}

/// What to do with a region.
#[derive(Debug, Clone, Copy, PartialEq, Eq, Structural)]
pub enum RegionAction {
    /// The region is free: skip it.
    SkipFree,
    /// The region is only reserved: skip it.
    SkipReserved,
    /// The region is a guard region: skip it.
    SkipGuard,
    /// The region cannot be accessed: skip it.
    SkipNoAccess,
    /// Lock the addresses `start..end`.
    Lock { start: u64, end: u64 },
}

/// `a + b`, or `u64::MAX` where that does not fit.
pub open spec fn saturating_sum(a: int, b: int) -> u64 {
    if a + b > u64::MAX { u64::MAX } else { (a + b) as u64 }
}

/// What is done with a region: regions that are free or only reserved are
/// skipped, then guard and no-access regions; every other region is locked
/// from its base to its end, the end saturating at `u64::MAX`.
pub open spec fn region_action(r: MemoryRegion) -> RegionAction {
    if r.state & (MEM_FREE | MEM_RESERVE) != 0 {
        if r.state & MEM_FREE != 0 { RegionAction::SkipFree } else { RegionAction::SkipReserved }
    } else if r.protect & (PAGE_GUARD | PAGE_NOACCESS) != 0 {
        if r.protect & PAGE_GUARD != 0 { RegionAction::SkipGuard } else { RegionAction::SkipNoAccess }
    } else {
        RegionAction::Lock { start: r.base as u64, end: saturating_sum(r.base as int, r.size as int) }
    }
}

/// Decides whether `region` is skipped or locked, and which range is locked.
pub fn classify_region(region: &MemoryRegion) -> (r: RegionAction)
    ensures
        r == region_action(*region),
{
    if region.state & (MEM_FREE | MEM_RESERVE) != 0 {
        if region.state & MEM_FREE != 0 {
            RegionAction::SkipFree
        } else {
            RegionAction::SkipReserved
        }
    } else if region.protect & (PAGE_GUARD | PAGE_NOACCESS) != 0 {
        if region.protect & PAGE_GUARD != 0 {
            RegionAction::SkipGuard
        } else {
            RegionAction::SkipNoAccess
        }
    } else {
        let start = region.base as u64;
        RegionAction::Lock { start, end: start.saturating_add(region.size as u64) }
    }
}

/// A region that is locked is locked from its base, over its size or up to
/// `u64::MAX`, whichever ends first; the range is never reversed.
pub proof fn lemma_locked_range(r: MemoryRegion)
    ensures
        region_action(r) matches RegionAction::Lock { start, end } ==> start == r.base && start
            <= end && end - start == (if r.base + r.size > u64::MAX {
            u64::MAX - r.base
        } else {
            r.size as int
        }),
{
}

/// Which regions are locked: every region whose state has neither the
/// `MEM_FREE` (0x10000) nor the `MEM_RESERVE` (0x2000) bit, and whose
/// protection has neither the `PAGE_GUARD` (0x100) nor the `PAGE_NOACCESS`
/// (0x1) bit, is locked from its base to its end (saturating at
/// `u64::MAX`), whatever its other protection bits (read-only, executable,
/// write-copy, ...). A region is skipped only for one of those four bits, and
/// free and reserved regions are skipped as such.
pub proof fn lemma_region_choice(r: MemoryRegion)
    ensures
        (r.state & 0x12000u32 == 0 && r.protect & 0x101u32 == 0) ==> region_action(r) == (
        RegionAction::Lock {
            start: r.base as u64,
            end: if r.base + r.size > 0xFFFF_FFFF_FFFF_FFFFu64 {
                0xFFFF_FFFF_FFFF_FFFFu64
            } else {
                (r.base + r.size) as u64
            },
        }),
        !(region_action(r) is Lock) ==> (r.state & 0x12000u32 != 0 || r.protect & 0x101u32 != 0),
        r.state & 0x10000u32 != 0 ==> region_action(r) == RegionAction::SkipFree,
        (r.state & 0x10000u32 == 0 && r.state & 0x2000u32 != 0) ==> region_action(r)
            == RegionAction::SkipReserved,
        (r.state & 0x12000u32 == 0 && r.protect & 0x100u32 != 0) ==> region_action(r)
            == RegionAction::SkipGuard,
        (r.state & 0x12000u32 == 0 && r.protect & 0x100u32 == 0 && r.protect & 0x1u32 != 0)
            ==> region_action(r) == RegionAction::SkipNoAccess,
{
    let st = r.state;
    let pr = r.protect;
    assert(MEM_FREE | MEM_RESERVE == 0x12000u32) by (bit_vector);
    assert(PAGE_GUARD | PAGE_NOACCESS == 0x101u32) by (bit_vector);
    assert(st & 0x10000u32 != 0 ==> st & 0x12000u32 != 0) by (bit_vector);
    assert(st & 0x2000u32 != 0 ==> st & 0x12000u32 != 0) by (bit_vector);
    assert(pr & 0x100u32 != 0 ==> pr & 0x101u32 != 0) by (bit_vector);
    assert(pr & 0x1u32 != 0 ==> pr & 0x101u32 != 0) by (bit_vector);
}

/// The kernel's answers to a first lock attempt, by their `NTSTATUS`
/// values: success (0), locked already (0x40000019) and an incompatible file
/// mapping (0xC000004D) all count as done; the working-set quota
/// (0xC00000A1) asks for the working set to be grown.
pub proof fn lemma_first_lock_statuses(req: LockRequest, base: u64, len: usize)
    requires
        req.wf(),
        req.stage == LockStage::FirstLock,
    ensures
        forall|status: i32|
            #![trigger req.transition(LockEvent::Locked { status, base, len })]
            (status == 0 || status == 0x40000019i32 || status == 0xC000004Du32 as i32)
                ==> req.transition(LockEvent::Locked { status, base, len }).1 == LockAction::Finish(
                Ok((req.end - req.start) as u64),
            ),
        req.transition(LockEvent::Locked { status: 0xC00000A1u32 as i32, base, len }).1
            is QueryWorkingSet,
{
    assert(0xC000004Du32 as i32 == -1073741747i32) by (bit_vector);
    assert(0xC00000A1u32 as i32 == -1073741663i32) by (bit_vector);
}

/// How many spinner frames the progress line cycles through.
pub const SPINNER_FRAMES: usize = 4;

/// The running total of a walk: how many bytes were handed to the kernel to
/// lock, saturating at `u64::MAX`, and how many progress lines were shown.
#[derive(Debug, Clone, Copy, PartialEq, Eq, Structural)]
pub struct LockProgress {
    pub amount: u64,
    pub spinner: usize,
}

impl LockProgress {
    /// Nothing locked, nothing shown.
    pub fn new() -> (r: LockProgress)
        ensures
            r.amount == 0,
            r.spinner == 0,
    {
        LockProgress { amount: 0, spinner: 0 }
    }

    /// Counts the range `start..end`, which is about to be locked.
    pub fn record(&mut self, start: u64, end: u64)
        requires
            start <= end,
        ensures
            final(self).amount == saturating_sum(old(self).amount as int, end - start),
            final(self).spinner == old(self).spinner,
    {
        self.amount = self.amount.saturating_add(end - start);
    }

    /// The spinner frame of the next progress line, which is then counted.
    pub fn next_frame(&mut self) -> (frame: usize)
        requires
            old(self).spinner < usize::MAX,
        ensures
            frame == old(self).spinner % SPINNER_FRAMES,
            frame < SPINNER_FRAMES,
            final(self).spinner == old(self).spinner + 1,
            final(self).amount == old(self).amount,
    {
        let frame = self.spinner % SPINNER_FRAMES;
        self.spinner = self.spinner + 1;
        frame
    }
}

/// Whether a progress line is due, `elapsed_secs` whole seconds after the
/// last one: at most one line a second.
pub fn progress_due(elapsed_secs: u64) -> (r: bool)
    ensures
        r == (elapsed_secs >= 1),
{
    elapsed_secs >= 1
}

/// Where a [`LockRequest`] stands.
#[derive(Debug, Clone, Copy, PartialEq, Eq, Structural)]
pub enum LockStage {
    /// Waiting for the first lock attempt.
    FirstLock,
    /// Waiting for the working-set limits.
    QueryWorkingSet,
    /// Waiting for the working set to be grown.
    SetWorkingSet,
    /// Waiting for the second and last lock attempt.
    SecondLock,
    /// Done.
    Finished,
}

/// What the caller is to do next.
#[derive(Debug)]
pub enum LockAction {
    /// Call `NtLockVirtualMemory` with `MAP_PROCESS` on `len` bytes at `base`.
    Lock { base: u64, len: usize },
    /// Read the process's working-set limits.
    QueryWorkingSet,
    /// Set the process's working-set limits to these values and flags.
    SetWorkingSet { minimum: usize, maximum: usize, flags: u32 },
    /// The request is over; this is its outcome: the length of the range that
    /// was asked for, or what went wrong.
    Finish(Result<u64, Error>),
}

/// What the caller observed after doing what it was asked.
#[derive(Debug)]
pub enum LockEvent {
    /// `NtLockVirtualMemory` returned `status` and left `base` and `len` in
    /// its in-out arguments.
    Locked { status: i32, base: u64, len: usize },
    /// The working-set limits (minimum, maximum), or the failure to read them.
    WorkingSet(Result<(usize, usize), Error>),
    /// The working set was set, or not.
    WorkingSetSet(Result<(), Error>),
}

/// Locking the range `start..end` of a process.
#[derive(Debug, Clone, Copy, PartialEq, Eq, Structural)]
pub struct LockRequest {
    /// The range asked for.
    pub start: u64,
    pub end: u64,
    /// Its length, `end - start`.
    pub requested: u64,
    /// The base and length handed to the kernel; the kernel may round them.
    pub base: u64,
    pub len: usize,
    pub stage: LockStage,
}

/// Statuses of a first lock attempt that count as success: locked, locked
/// already, or a mapping that cannot be locked and is left as it is.
pub open spec fn first_lock_done(status: i32) -> bool {
    status == STATUS_SUCCESS || status == STATUS_INCOMPATIBLE_FILE_MAP || status
        == STATUS_WAS_LOCKED
}

impl LockRequest {
    pub open spec fn wf(self) -> bool {
        &&& self.start <= self.end
        &&& self.requested == self.end - self.start
    }

    /// Whether `event` is an answer to what this request asked for last, in
    /// a form the request can go on from. A grown working-set limit must fit
    /// in a `usize`.
    pub open spec fn accepts(self, event: LockEvent) -> bool {
        match self.stage {
            LockStage::FirstLock => event is Locked,
            LockStage::SecondLock => event is Locked,
            LockStage::QueryWorkingSet => match event {
                LockEvent::WorkingSet(Ok((min, max))) => min + self.len <= usize::MAX && max
                    + self.len <= usize::MAX,
                LockEvent::WorkingSet(Err(_)) => true,
                _ => false,
            },
            LockStage::SetWorkingSet => event is WorkingSetSet,
            LockStage::Finished => false,
        }
    }

    /// The request after `event`, and what it asks for next.
    pub open spec fn transition(self, event: LockEvent) -> (LockRequest, LockAction) {
        match event {
            LockEvent::Locked { status, base, len } => {
                let moved = LockRequest { base, len, stage: LockStage::Finished, ..self };
                if self.stage == LockStage::FirstLock {
                    if first_lock_done(status) {
                        (moved, LockAction::Finish(Ok(self.requested)))
                    } else if status == STATUS_WORKING_SET_QUOTA {
                        (
                            LockRequest { stage: LockStage::QueryWorkingSet, ..moved },
                            LockAction::QueryWorkingSet,
                        )
                    } else {
                        (moved, LockAction::Finish(Err(Error::LockFailed { status })))
                    }
                } else if status == STATUS_SUCCESS {
                    (moved, LockAction::Finish(Ok(self.requested)))
                } else {
                    (
                        moved,
                        LockAction::Finish(
                            Err(Error::RelockFailed { start: self.start, end: self.end, status }),
                        ),
                    )
                }
            },
            LockEvent::WorkingSet(Ok((min, max))) => (
                LockRequest { stage: LockStage::SetWorkingSet, ..self },
                LockAction::SetWorkingSet {
                    minimum: (min + self.len) as usize,
                    maximum: (max + self.len) as usize,
                    flags: GROWN_WORKING_SET_FLAGS,
                },
            ),
            LockEvent::WorkingSet(Err(e)) => (
                LockRequest { stage: LockStage::Finished, ..self },
                LockAction::Finish(Err(e)),
            ),
            LockEvent::WorkingSetSet(Ok(())) => (
                LockRequest { stage: LockStage::SecondLock, ..self },
                LockAction::Lock { base: self.base, len: self.len },
            ),
            LockEvent::WorkingSetSet(Err(e)) => (
                LockRequest { stage: LockStage::Finished, ..self },
                LockAction::Finish(Err(e)),
            ),
        }
    }

    /// Starts locking `start..end`: the first thing to do is to lock the
    /// whole range.
    pub fn new(start: u64, end: u64) -> (r: (LockRequest, LockAction))
        requires
            start <= end,
            end - start <= usize::MAX,
        ensures
            r.0.wf(),
            r.0.start == start,
            r.0.end == end,
            r.0.base == start,
            r.0.len == end - start,
            r.0.stage == LockStage::FirstLock,
            r.1 == (LockAction::Lock { base: start, len: (end - start) as usize }),
    {
        let len = (end - start) as usize;
        (
            LockRequest { start, end, requested: end - start, base: start, len, stage: LockStage::FirstLock },
            LockAction::Lock { base: start, len },
        )
    }

    /// Goes on with what the caller observed.
    pub fn step(&mut self, event: LockEvent) -> (action: LockAction)
        requires
            old(self).wf(),
            old(self).accepts(event),
        ensures
            final(self).wf(),
            (*final(self), action) == old(self).transition(event),
    {
        match event {
            LockEvent::Locked { status, base, len } => {
                let first = self.stage == LockStage::FirstLock;
                self.base = base;
                self.len = len;
                self.stage = LockStage::Finished;
                if first {
                    if status == STATUS_SUCCESS || status == STATUS_INCOMPATIBLE_FILE_MAP || status
                        == STATUS_WAS_LOCKED {
                        LockAction::Finish(Ok(self.requested))
                    } else if status == STATUS_WORKING_SET_QUOTA {
                        self.stage = LockStage::QueryWorkingSet;
                        LockAction::QueryWorkingSet
                    } else {
                        LockAction::Finish(Err(Error::LockFailed { status }))
                    }
                } else if status == STATUS_SUCCESS {
                    LockAction::Finish(Ok(self.requested))
                } else {
                    LockAction::Finish(
                        Err(Error::RelockFailed { start: self.start, end: self.end, status }),
                    )
                }
            },
            LockEvent::WorkingSet(Ok((min, max))) => {
                self.stage = LockStage::SetWorkingSet;
                LockAction::SetWorkingSet {
                    minimum: min + self.len,
                    maximum: max + self.len,
                    flags: GROWN_WORKING_SET_FLAGS,
                }
            },
            LockEvent::WorkingSet(Err(e)) => {
                self.stage = LockStage::Finished;
                LockAction::Finish(Err(e))
            },
            LockEvent::WorkingSetSet(Ok(())) => {
                self.stage = LockStage::SecondLock;
                LockAction::Lock { base: self.base, len: self.len }
            },
            LockEvent::WorkingSetSet(Err(e)) => {
                self.stage = LockStage::Finished;
                LockAction::Finish(Err(e))
            },
        }
    }
}

/// The outcome of locking `start..end` when the kernel answers the first
/// attempt with `first_status`, the working-set query with `limits`, the
/// growth of the working set with `grown` and the second attempt with
/// `second_status` (answers that are not asked for are not read).
pub open spec fn lock_outcome(
    start: u64,
    end: u64,
    first_status: i32,
    limits: Result<(usize, usize), Error>,
    grown: Result<(), Error>,
    second_status: i32,
) -> Result<u64, Error> {
    if first_lock_done(first_status) {
        Ok((end - start) as u64)
    } else if first_status != STATUS_WORKING_SET_QUOTA {
        Err(Error::LockFailed { status: first_status })
    } else {
        match limits {
            Err(e) => Err(e),
            Ok(_) => match grown {
                Err(e) => Err(e),
                Ok(()) => if second_status == STATUS_SUCCESS {
                    Ok((end - start) as u64)
                } else {
                    Err(Error::RelockFailed { start, end, status: second_status })
                },
            },
        }
    }
}

/// The last action of a request for `start..end`, fed the kernel's answers
/// in order until it finishes.
pub open spec fn run_lock(
    start: u64,
    end: u64,
    first: (i32, u64, usize),
    limits: Result<(usize, usize), Error>,
    grown: Result<(), Error>,
    second: (i32, u64, usize),
) -> LockAction {
    let r0 = LockRequest {
        start,
        end,
        requested: (end - start) as u64,
        base: start,
        len: (end - start) as usize,
        stage: LockStage::FirstLock,
    };
    let (r1, a1) = r0.transition(LockEvent::Locked { status: first.0, base: first.1, len: first.2 });
    if !(a1 is QueryWorkingSet) {
        a1
    } else {
        let (r2, a2) = r1.transition(LockEvent::WorkingSet(limits));
        if !(a2 is SetWorkingSet) {
            a2
        } else {
            let (r3, a3) = r2.transition(LockEvent::WorkingSetSet(grown));
            if !(a3 is Lock) {
                a3
            } else {
                r3.transition(LockEvent::Locked { status: second.0, base: second.1, len: second.2 }).1
            }
        }
    }
}

/// Locking a range, whatever the kernel answers, ends after at most two lock
/// attempts with the outcome [`lock_outcome`]: success is reported with the
/// length of the range asked for; a first failure other than the quota is
/// final; a quota failure grows the working set and tries exactly once more.
pub proof fn lemma_lock_run(
    start: u64,
    end: u64,
    first: (i32, u64, usize),
    limits: Result<(usize, usize), Error>,
    grown: Result<(), Error>,
    second: (i32, u64, usize),
)
    requires
        start <= end,
    ensures
        run_lock(start, end, first, limits, grown, second) == LockAction::Finish(
            lock_outcome(start, end, first.0, limits, grown, second.0),
        ),
{
}

/// A request that succeeds reports the length of the range asked for.
pub proof fn lemma_success_is_requested_length(req: LockRequest, event: LockEvent)
    requires
        req.wf(),
        req.accepts(event),
    ensures
        req.transition(event).1 matches LockAction::Finish(Ok(n)) ==> n == req.end - req.start,
        req.transition(event).0.wf(),
{
}

/// After a quota failure the working set is grown, at both limits, by the
/// length the kernel left in the first attempt's arguments, with a hard
/// minimum and no hard maximum; then the range the kernel left is locked
/// again, and that attempt is the last one.
pub proof fn lemma_quota_retry(
    req: LockRequest,
    base: u64,
    len: usize,
    min: usize,
    max: usize,
    second: LockEvent,
)
    requires
        req.wf(),
        req.stage == LockStage::FirstLock,
        min + len <= usize::MAX,
        max + len <= usize::MAX,
        second is Locked,
    ensures
        ({
            let (r1, a1) = req.transition(
                LockEvent::Locked { status: STATUS_WORKING_SET_QUOTA, base, len },
            );
            let (r2, a2) = r1.transition(LockEvent::WorkingSet(Ok((min, max))));
            let (r3, a3) = r2.transition(LockEvent::WorkingSetSet(Ok(())));
            &&& a1 is QueryWorkingSet
            &&& a2 == (LockAction::SetWorkingSet {
                minimum: (min + len) as usize,
                maximum: (max + len) as usize,
                flags: QUOTA_LIMITS_HARDWS_MIN_ENABLE | QUOTA_LIMITS_HARDWS_MAX_DISABLE,
            })
            &&& a3 == (LockAction::Lock { base, len })
            &&& r3.transition(second).1 is Finish
            &&& r3.transition(second).0.stage == LockStage::Finished
        }),
{
    lemma_grown_flags();
    assert(STATUS_WORKING_SET_QUOTA != STATUS_SUCCESS);
}

} // verus!
