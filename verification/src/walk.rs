//! Locking a whole address space: the walk from the lowest to the highest
//! application address, region by region, locking every region that
//! [`classify_region`] says to lock and counting what was locked.
use vstd::prelude::*;
use crate::error::{Error, WinApi, win32_to_hresult};
use crate::lock::{
    LockAction, LockEvent, LockProgress, LockRequest, LockStage, MemoryRegion, RegionAction,
    classify_region, lemma_locked_range, region_action, saturating_sum,
};
use crate::process::VirtMemIterator;

verus! {

/// The ranges locked for `regions`, in order: one for each region that is
/// to be locked.
pub open spec fn lock_ranges(regions: Seq<MemoryRegion>) -> Seq<(u64, u64)>
    decreases regions.len(),
{
    if regions.len() == 0 {
        Seq::empty()
    } else {
        let before = lock_ranges(regions.drop_last());
        match region_action(regions.last()) {
            RegionAction::Lock { start, end } => before.push((start, end)),
            _ => before,
        }
    }
}

/// The total length of `ranges`, saturating at `u64::MAX` as it is summed.
pub open spec fn saturating_total(ranges: Seq<(u64, u64)>) -> u64
    decreases ranges.len(),
{
    if ranges.len() == 0 {
        0
    } else {
        saturating_sum(
            saturating_total(ranges.drop_last()) as int,
            ranges.last().1 - ranges.last().0,
        )
    }
}

/// The plain sum of the lengths of `ranges`.
pub open spec fn total_length(ranges: Seq<(u64, u64)>) -> int
    decreases ranges.len(),
{
    if ranges.len() == 0 {
        0
    } else {
        total_length(ranges.drop_last()) + (ranges.last().1 - ranges.last().0)
    }
}

/// Summing with saturation at each step gives the plain sum, capped at
/// `u64::MAX`: the count reported is exact unless it does not fit.
pub proof fn lemma_saturating_total(ranges: Seq<(u64, u64)>)
    requires
        forall|i: int| 0 <= i < ranges.len() ==> #[trigger] ranges[i].0 <= ranges[i].1,
    ensures
        saturating_total(ranges) == (if total_length(ranges) > u64::MAX {
            u64::MAX as int
        } else {
            total_length(ranges)
        }),
        total_length(ranges) >= 0,
    decreases ranges.len(),
{
    if ranges.len() > 0 {
        let prev = ranges.drop_last();
        assert forall|i: int| 0 <= i < prev.len() implies #[trigger] prev[i].0 <= prev[i].1 by {
            assert(prev[i] == ranges[i]);
        }
        lemma_saturating_total(prev);
        assert(ranges.last() == ranges[ranges.len() - 1]);
    }
}

/// Every range a walk locks is in order: its start is not past its end.
pub proof fn lemma_lock_ranges_ordered(regions: Seq<MemoryRegion>)
    ensures
        forall|i: int|
            0 <= i < lock_ranges(regions).len() ==> #[trigger] lock_ranges(regions)[i].0
                <= lock_ranges(regions)[i].1,
    decreases regions.len(),
{
    if regions.len() > 0 {
        let before = lock_ranges(regions.drop_last());
        lemma_lock_ranges_ordered(regions.drop_last());
        lemma_locked_range(regions.last());
        assert forall|i: int|
            0 <= i < lock_ranges(regions).len() implies #[trigger] lock_ranges(regions)[i].0
            <= lock_ranges(regions)[i].1 by {
            if i < before.len() {
                assert(before[i].0 <= before[i].1);
            }
        }
    }
}

/// What a walk reports having locked over the regions `visited` is the
/// length of every range it locked, added up, or `u64::MAX` if that does not
/// fit.
pub proof fn lemma_walk_count(visited: Seq<MemoryRegion>)
    ensures
        saturating_total(lock_ranges(visited)) == (if total_length(lock_ranges(visited))
            > u64::MAX {
            u64::MAX as int
        } else {
            total_length(lock_ranges(visited))
        }),
{
    lemma_lock_ranges_ordered(visited);
    lemma_saturating_total(lock_ranges(visited));
}

/// Whether the addresses `queried` follow the regions `visited`: the first
/// is `min`, and each next one is the end of the region the previous one
/// fell in.
pub open spec fn walk_chain(min: usize, queried: Seq<usize>, visited: Seq<MemoryRegion>) -> bool {
    &&& queried.len() > 0 ==> queried[0] == min
    &&& forall|i: int|
        0 <= i < visited.len() && i + 1 < queried.len() ==> #[trigger] queried[i + 1]
            == visited[i].base + visited[i].size
}

/// The walk moves forward: when each region described contains the address
/// it was queried for, each address queried is past the one before.
pub proof fn lemma_walk_advances(min: usize, queried: Seq<usize>, visited: Seq<MemoryRegion>)
    requires
        walk_chain(min, queried, visited),
        forall|i: int|
            0 <= i < visited.len() && i < queried.len() ==> #[trigger] visited[i].base <= queried[i]
                < visited[i].base + visited[i].size,
    ensures
        forall|i: int|
            0 <= i < visited.len() && i + 1 < queried.len() ==> #[trigger] queried[i] < queried[i
                + 1],
{
    assert forall|i: int|
        0 <= i < visited.len() && i + 1 < queried.len() implies #[trigger] queried[i] < queried[i
        + 1] by {
        assert(visited[i].base <= queried[i] < visited[i].base + visited[i].size);
        assert(queried[i + 1] == visited[i].base + visited[i].size);
    }
}

/// Whether the regions `visited` reach `max`, starting at `min`.
pub open spec fn covered(min: usize, max: usize, visited: Seq<MemoryRegion>) -> bool {
    if visited.len() == 0 {
        min >= max
    } else {
        visited.last().base + visited.last().size >= max
    }
}

/// The request that locks `start..end` before the kernel answered.
pub open spec fn fresh_request(start: u64, end: u64) -> LockRequest {
    LockRequest {
        start,
        end,
        requested: (end - start) as u64,
        base: start,
        len: (end - start) as usize,
        stage: LockStage::FirstLock,
    }
}

/// Where a walk stands.
#[derive(Debug, Clone, Copy, PartialEq, Eq, Structural)]
pub enum WalkStage {
    /// Waiting for the region at the current address.
    Query,
    /// Locking a range.
    Lock,
    /// A range was locked; progress may be shown before going on.
    Report,
    /// Done.
    Done,
}

/// What the caller is to do next.
#[derive(Debug)]
pub enum WalkAction {
    /// Describe the region at `addr` with `VirtualQueryEx`.
    Query { addr: usize },
    /// Do what locking the current range asks for.
    Kernel(LockAction),
    /// The current range is locked; `amount` bytes were handed to the kernel
    /// so far. Show progress if it is due, then go on.
    Locked { amount: u64 },
    /// The walk is over: the bytes handed to the kernel, or what stopped it.
    Done(Result<u64, Error>),
}

/// What the caller observed.
#[derive(Debug)]
pub enum WalkEvent {
    /// `VirtualQueryEx` wrote `written` bytes of `region` and left
    /// `last_error` as the thread's last error.
    Queried { written: usize, region: MemoryRegion, last_error: u32 },
    /// The answer to what locking asked for.
    Kernel(LockEvent),
    /// Progress was shown, or was not due.
    Continue,
}

/// A walk over a process's address space that locks it.
pub struct LockWalk {
    cursor: VirtMemIterator,
    progress: LockProgress,
    request: Option<LockRequest>,
    stage: WalkStage,
    min: usize,
    queried: Ghost<Seq<usize>>,
    visited: Ghost<Seq<MemoryRegion>>,
}

impl LockWalk {
    pub closed spec fn stage(&self) -> WalkStage {
        self.stage
    }

    /// The bytes handed to the kernel so far.
    pub closed spec fn spec_amount(&self) -> u64 {
        self.progress.amount
    }

    pub closed spec fn spec_spinner(&self) -> usize {
        self.progress.spinner
    }

    /// The request locking the current range.
    pub closed spec fn request(&self) -> Option<LockRequest> {
        self.request
    }

    /// The address the walk started at.
    pub closed spec fn min(&self) -> usize {
        self.min
    }

    /// The address the walk stops at.
    pub closed spec fn max(&self) -> usize {
        self.cursor.spec_max()
    }

    /// The addresses queried so far.
    pub closed spec fn queried(&self) -> Seq<usize> {
        self.queried@
    }

    /// The regions described so far.
    pub closed spec fn visited(&self) -> Seq<MemoryRegion> {
        self.visited@
    }

    pub closed spec fn wf(&self) -> bool {
        &&& (self.stage == WalkStage::Lock) <==> self.request is Some
        &&& self.request matches Some(r) ==> r.wf() && r.stage != LockStage::Finished
        &&& self.progress.amount == saturating_total(lock_ranges(self.visited@))
        &&& walk_chain(self.min, self.queried@, self.visited@)
        &&& self.stage == WalkStage::Query ==> {
            &&& self.queried@.len() == self.visited@.len() + 1
            &&& self.queried@.last() == self.cursor.spec_addr()
            &&& self.cursor.spec_addr() < self.cursor.spec_max()
        }
        &&& (self.stage == WalkStage::Lock || self.stage == WalkStage::Report) ==> {
            &&& self.queried@.len() == self.visited@.len()
            &&& self.visited@.len() > 0
            &&& self.cursor.spec_addr() == self.visited@.last().base + self.visited@.last().size
        }
    }

    /// Whether `event` answers what the walk asked for last, in a form it can
    /// go on from: a described region has a size and ends within the address
    /// space, and the kernel's answers suit the range being locked.
    pub open spec fn accepts(&self, event: WalkEvent) -> bool {
        match self.stage() {
            WalkStage::Query => match event {
                WalkEvent::Queried { written, region, .. } => written != 0 ==> region.size != 0
                    && region.base + region.size <= usize::MAX,
                _ => false,
            },
            WalkStage::Lock => match event {
                WalkEvent::Kernel(e) => self.request() matches Some(r) && r.accepts(e),
                _ => false,
            },
            WalkStage::Report => event is Continue,
            WalkStage::Done => false,
        }
    }

    /// Starts the walk that `cursor` describes: nothing to do when it is
    /// empty, otherwise a query of its first address.
    pub fn new(cursor: VirtMemIterator) -> (r: (LockWalk, WalkAction))
        ensures
            r.0.wf(),
            r.0.min() == cursor.spec_addr(),
            r.0.max() == cursor.spec_max(),
            r.0.visited() == Seq::<MemoryRegion>::empty(),
            r.0.spec_amount() == 0,
            r.0.spec_spinner() == 0,
            walk_chain(r.0.min(), r.0.queried(), r.0.visited()),
            cursor.spec_addr() >= cursor.spec_max() ==> r.1 == WalkAction::Done(Ok(0))
                && r.0.stage() == WalkStage::Done && r.0.queried() == Seq::<usize>::empty(),
            cursor.spec_addr() < cursor.spec_max() ==> r.1 == (WalkAction::Query {
                addr: cursor.spec_addr(),
            }) && r.0.stage() == WalkStage::Query && r.0.queried() == seq![cursor.spec_addr()],
    {
        let progress = LockProgress::new();
        let min = cursor.address();
        match cursor.next_address() {
            Some(addr) => (
                LockWalk {
                    cursor,
                    progress,
                    request: None,
                    stage: WalkStage::Query,
                    min,
                    queried: Ghost(Seq::empty().push(addr)),
                    visited: Ghost(Seq::empty()),
                },
                WalkAction::Query { addr },
            ),
            None => (
                LockWalk {
                    cursor,
                    progress,
                    request: None,
                    stage: WalkStage::Done,
                    min,
                    queried: Ghost(Seq::empty()),
                    visited: Ghost(Seq::empty()),
                },
                WalkAction::Done(Ok(0)),
            ),
        }
    }

    /// The request locking the current range, if one is.
    pub fn current_request(&self) -> (r: Option<LockRequest>)
        ensures
            r == self.request(),
    {
        self.request
    }

    /// How many progress lines were shown.
    pub fn spinner(&self) -> (r: usize)
        ensures
            r == self.spec_spinner(),
    {
        self.progress.spinner
    }

    /// The bytes handed to the kernel so far.
    pub fn amount(&self) -> (r: u64)
        ensures
            r == self.spec_amount(),
    {
        self.progress.amount
    }

    /// The spinner frame of the next progress line, which is then counted.
    pub fn next_frame(&mut self) -> (frame: usize)
        requires
            old(self).wf(),
            old(self).spec_spinner() < usize::MAX,
        ensures
            final(self).wf(),
            frame == old(self).spec_spinner() % 4,
            final(self).spec_spinner() == old(self).spec_spinner() + 1,
            final(self).stage() == old(self).stage(),
            final(self).spec_amount() == old(self).spec_amount(),
            final(self).request() == old(self).request(),
            final(self).min() == old(self).min(),
            final(self).max() == old(self).max(),
            final(self).queried() == old(self).queried(),
            final(self).visited() == old(self).visited(),
    {
        self.progress.next_frame()
    }

    /// Goes on with what the caller observed.
    ///
    /// A described region is recorded; one to lock starts locking its range
    /// (counted before it is locked), one to skip moves the walk on. A failed
    /// query ends the walk with that error. The kernel's answers go to the
    /// range being locked: when it is locked the walk reports progress, and
    /// when that fails the walk ends with the failure. Going on after a report
    /// moves to the end of the last region, and the walk ends once that is
    /// past the highest address, with the bytes handed to the kernel.
    pub fn step(&mut self, event: WalkEvent) -> (action: WalkAction)
        requires
            old(self).wf(),
            old(self).accepts(event),
        ensures
            final(self).wf(),
            final(self).min() == old(self).min(),
            final(self).max() == old(self).max(),
            final(self).spec_spinner() == old(self).spec_spinner(),
            walk_chain(final(self).min(), final(self).queried(), final(self).visited()),
            action matches WalkAction::Query { addr } ==> final(self).queried() == old(
                self,
            ).queried().push(addr),
            !(action is Query) ==> final(self).queried() == old(self).queried(),
            action matches WalkAction::Done(Ok(n)) ==> n == saturating_total(
                lock_ranges(final(self).visited()),
            ) && covered(final(self).min(), final(self).max(), final(self).visited()),
            match event {
                WalkEvent::Queried { written, region, last_error } => if written == 0 {
                    &&& action == WalkAction::Done(
                        Err(
                            Error::ApiFailed {
                                api: WinApi::VirtualQueryEx,
                                code: win32_to_hresult(last_error),
                            },
                        ),
                    )
                    &&& final(self).stage() == WalkStage::Done
                    &&& final(self).visited() == old(self).visited()
                    &&& final(self).spec_amount() == old(self).spec_amount()
                } else {
                    &&& final(self).visited() == old(self).visited().push(region)
                    &&& match region_action(region) {
                        RegionAction::Lock { start, end } => {
                            &&& action == WalkAction::Kernel(
                                LockAction::Lock { base: start, len: (end - start) as usize },
                            )
                            &&& final(self).stage() == WalkStage::Lock
                            &&& final(self).request() == Some(fresh_request(start, end))
                            &&& final(self).spec_amount() == saturating_sum(
                                old(self).spec_amount() as int,
                                end - start,
                            )
                        },
                        _ => {
                            &&& final(self).spec_amount() == old(self).spec_amount()
                            &&& if region.base + region.size >= old(self).max() {
                                &&& action == WalkAction::Done(Ok(old(self).spec_amount()))
                                &&& final(self).stage() == WalkStage::Done
                            } else {
                                &&& action == (WalkAction::Query {
                                    addr: (region.base + region.size) as usize,
                                })
                                &&& final(self).stage() == WalkStage::Query
                            }
                        },
                    }
                },
                WalkEvent::Kernel(e) => {
                    let (next, a) = old(self).request()->0.transition(e);
                    &&& final(self).visited() == old(self).visited()
                    &&& final(self).spec_amount() == old(self).spec_amount()
                    &&& match a {
                        LockAction::Finish(Ok(_)) => {
                            &&& action == (WalkAction::Locked { amount: old(self).spec_amount() })
                            &&& final(self).stage() == WalkStage::Report
                        },
                        LockAction::Finish(Err(err)) => {
                            &&& action == WalkAction::Done(Err(err))
                            &&& final(self).stage() == WalkStage::Done
                        },
                        _ => {
                            &&& action == WalkAction::Kernel(a)
                            &&& final(self).stage() == WalkStage::Lock
                            &&& final(self).request() == Some(next)
                        },
                    }
                },
                WalkEvent::Continue => {
                    let end = (old(self).visited().last().base + old(self).visited().last().size) as usize;
                    &&& final(self).visited() == old(self).visited()
                    &&& final(self).spec_amount() == old(self).spec_amount()
                    &&& if end >= old(self).max() {
                        &&& action == WalkAction::Done(Ok(old(self).spec_amount()))
                        &&& final(self).stage() == WalkStage::Done
                    } else {
                        &&& action == (WalkAction::Query { addr: end })
                        &&& final(self).stage() == WalkStage::Query
                    }
                },
            },
    {
        match event {
            WalkEvent::Queried { written, region, last_error } => {
                match self.cursor.on_query(written, region, last_error) {
                    Err(e) => {
                        self.stage = WalkStage::Done;
                        WalkAction::Done(Err(e))
                    },
                    Ok(region) => {
                        let ghost v0 = self.visited@;
                        proof {
                            self.visited@ = v0.push(region);
                            assert(self.visited@.drop_last() =~= v0);
                        }
                        match classify_region(&region) {
                            RegionAction::Lock { start, end } => {
                                proof {
                                    lemma_locked_range(region);
                                    let r0 = lock_ranges(v0);
                                    assert(lock_ranges(self.visited@) == r0.push((start, end)));
                                    assert(r0.push((start, end)).drop_last() =~= r0);
                                }
                                self.progress.record(start, end);
                                let (req, a) = LockRequest::new(start, end);
                                self.request = Some(req);
                                self.stage = WalkStage::Lock;
                                WalkAction::Kernel(a)
                            },
                            _ => {
                                self.stage = WalkStage::Report;
                                self.advance()
                            },
                        }
                    },
                }
            },
            WalkEvent::Kernel(e) => {
                let mut req = match self.request {
                    Some(r) => r,
                    None => LockRequest::new(0, 0).0,
                };
                let a = req.step(e);
                match a {
                    LockAction::Finish(Ok(_)) => {
                        self.request = None;
                        self.stage = WalkStage::Report;
                        WalkAction::Locked { amount: self.progress.amount }
                    },
                    LockAction::Finish(Err(err)) => {
                        self.request = None;
                        self.stage = WalkStage::Done;
                        WalkAction::Done(Err(err))
                    },
                    other => {
                        self.request = Some(req);
                        WalkAction::Kernel(other)
                    },
                }
            },
            WalkEvent::Continue => self.advance(),
        }
    }

    /// Moves on to the next region, or ends the walk once the address space
    /// is covered.
    fn advance(&mut self) -> (action: WalkAction)
        requires
            old(self).wf(),
            old(self).stage() == WalkStage::Report || old(self).stage() == WalkStage::Query,
            old(self).queried().len() == old(self).visited().len(),
            old(self).visited().len() > 0,
            old(self).cursor.spec_addr() == old(self).visited().last().base + old(self).visited().last().size,
            old(self).request() is None,
        ensures
            final(self).wf(),
            final(self).spec_amount() == old(self).spec_amount(),
            final(self).spec_spinner() == old(self).spec_spinner(),
            final(self).min() == old(self).min(),
            final(self).max() == old(self).max(),
            final(self).visited() == old(self).visited(),
            final(self).request() is None,
            ({
                let end = (old(self).visited().last().base + old(self).visited().last().size) as usize;
                if end >= old(self).max() {
                    &&& action == WalkAction::Done(Ok(old(self).spec_amount()))
                    &&& final(self).stage() == WalkStage::Done
                    &&& final(self).queried() == old(self).queried()
                } else {
                    &&& action == (WalkAction::Query { addr: end })
                    &&& final(self).stage() == WalkStage::Query
                    &&& final(self).queried() == old(self).queried().push(end)
                }
            }),
    {
        match self.cursor.next_address() {
            Some(addr) => {
                self.stage = WalkStage::Query;
                proof {
                    let ghost q = self.queried@;
                    let ghost v = self.visited@;
                    self.queried@ = q.push(addr);
                    assert forall|i: int|
                        0 <= i < v.len() && i + 1 < self.queried@.len() implies #[trigger] self.queried@[i
                        + 1] == v[i].base + v[i].size by {
                        if i + 1 < q.len() {
                            assert(self.queried@[i + 1] == q[i + 1]);
                        }
                    }
                }
                WalkAction::Query { addr }
            },
            None => {
                self.stage = WalkStage::Done;
                WalkAction::Done(Ok(self.progress.amount))
            },
        }
    }
}

} // verus!
