//! Processes: finding one by name, walking the kernel's process snapshot and
//! a process's address space.
use vstd::prelude::*;
use crate::error::{Error, WinApi, win32_to_hresult};
use crate::handle::{Handle, ProcessHandle};
use crate::lock::MemoryRegion;
use crate::path::{file_name, file_name_of, is_separator, lemma_file_name_within};
use crate::text::{
    ascii_fold, before_nul, chars_eq_ignore_ascii_case, decode_utf16, decode_utf16_lossy,
    eq_ignore_ascii_case, first_nul, has_nul, utf16_lossy, utf16_strict,
};

verus! {

/// `ERROR_NO_MORE_FILES`: the process snapshot has no more entries.
pub const ERROR_NO_MORE_FILES: u32 = 18;

/// One entry of the kernel's process snapshot: the process id and the
/// `szExeFile` buffer, the executable's name in UTF-16 up to a nul.
#[derive(Debug)]
pub struct ProcessEntry {
    pub pid: u32,
    pub exe_file: Vec<u16>,
}

/// Whether the executable name in the buffer `exe_file` is `name`, ASCII
/// letters compared without regard to case; the buffer is read up to its
/// first nul and decoded from UTF-16, unpaired surrogates read as U+FFFD.
pub open spec fn entry_matches(exe_file: Seq<u16>, name: Seq<char>) -> bool {
    eq_ignore_ascii_case(decode_utf16_lossy(before_nul(exe_file)), name)
}

/// What reading one snapshot entry means for a search for `name`: an error
/// stops it with that error, a match stops it with the entry's pid, and any
/// other entry lets it read on.
pub open spec fn search_step(entry: Result<ProcessEntry, Error>, name: Seq<char>) -> SearchStep {
    match entry {
        Err(e) => SearchStep::Failed(e),
        Ok(p) => if entry_matches(p.exe_file@, name) {
            SearchStep::Found(p.pid)
        } else {
            SearchStep::Next
        },
    }
}

/// Where a search by name stands after reading one entry.
#[derive(Debug)]
pub enum SearchStep {
    /// Read the next entry.
    Next,
    /// Found: this pid; stop reading.
    Found(u32),
    /// Reading failed; stop with this error.
    Failed(Error),
}

impl ProcessEntry {
    /// Whether the name buffer holds a nul, as a search that reads this
    /// entry requires.
    pub fn has_nul(&self) -> (r: bool)
        ensures
            r == has_nul(self.exe_file@),
    {
        first_nul(self.exe_file.as_slice()).is_some()
    }

    /// Whether this is a process named `name`.
    pub fn matches(&self, name: &str) -> (r: bool)
        requires
            has_nul(self.exe_file@),
        ensures
            r == entry_matches(self.exe_file@, name@),
    {
        let units = self.exe_file.as_slice();
        match first_nul(units) {
            Some(n) => {
                let (exe, _) = units.split_at(n);
                let chars = utf16_lossy(exe);
                chars_eq_ignore_ascii_case(chars.as_slice(), name)
            },
            None => false,
        }
    }
}

/// What looking for `name` in a snapshot yields: the first entry that is an
/// error ends the search with it; the first entry that matches, with its
/// pid; with neither, nothing is found.
pub open spec fn name_search(entries: Seq<Result<ProcessEntry, Error>>, name: Seq<char>) -> Result<
    Option<u32>,
    Error,
>
    decreases entries.len(),
{
    if entries.len() == 0 {
        Ok(None)
    } else {
        match entries[0] {
            Err(e) => Err(e),
            Ok(p) => if entry_matches(p.exe_file@, name) {
                Ok(Some(p.pid))
            } else {
                name_search(entries.skip(1), name)
            },
        }
    }
}

/// Whether every entry that the search for `name` reads has a nul in its
/// name buffer.
pub open spec fn name_search_defined(
    entries: Seq<Result<ProcessEntry, Error>>,
    name: Seq<char>,
) -> bool
    decreases entries.len(),
{
    if entries.len() == 0 {
        true
    } else {
        match entries[0] {
            Err(_) => true,
            Ok(p) => has_nul(p.exe_file@) && (entry_matches(p.exe_file@, name)
                || name_search_defined(entries.skip(1), name)),
        }
    }
}

/// `String::from_iter` over characters: the string of exactly these
/// characters, in order.
#[verifier::external_body]
fn string_from_chars(chars: Vec<char>) -> (r: String)
    ensures
        r@ == chars@,
{
    String::from_iter(chars)
}

/// What `str::to_lowercase` gives for a text: the Unicode lower-case mapping
/// of the standard library, which is not restated here.
pub uninterp spec fn lowercase_text(s: Seq<char>) -> Seq<char>;

/// `str::to_lowercase`: the text in lower case. Its result is named by
/// [`lowercase_text`]; the one thing stated of it is that no ASCII capital
/// letter is left, since lowering maps each of them to its small letter and
/// maps no character to an ASCII capital.
#[verifier::external_body]
fn to_lowercase(s: &str) -> (r: String)
    ensures
        r@ == lowercase_text(s@),
        no_ascii_upper(r@),
{
    s.to_lowercase()
}

/// The full image path of a process, from the buffer that
/// `QueryFullProcessImageNameW` filled with `len` UTF-16 units: the path in
/// lower case, or an error when it is not valid UTF-16.
pub fn image_path(buffer: &[u16], len: u32) -> (r: Result<String, Error>)
    requires
        len <= buffer.len(),
    ensures
        match decode_utf16(buffer@.take(len as int)) {
            Some(t) => r matches Ok(s) && s@ == lowercase_text(t) && no_ascii_upper(s@),
            None => r == Err::<String, Error>(Error::InvalidUtf16),
        },
{
    let (units, _) = buffer.split_at(len as usize);
    assert(units@ =~= buffer@.take(len as int));
    match utf16_strict(units) {
        Some(chars) => {
            let path = string_from_chars(chars);
            Ok(to_lowercase(path.as_str()))
        },
        None => Err(Error::InvalidUtf16),
    }
}

/// Whether `s` holds no ASCII capital letter.
pub open spec fn no_ascii_upper(s: Seq<char>) -> bool {
    forall|i: int| 0 <= i < s.len() ==> !('A' <= #[trigger] s[i] <= 'Z')
}

/// A process, opened for locking its memory: its id is never 0, and its
/// name is a file name, not empty and without separators.
#[derive(Debug)]
pub struct Process {
    pid: u32,
    name: String,
    handle: ProcessHandle,
}

impl Process {
    #[verifier::type_invariant]
    spec fn inv(self) -> bool {
        &&& self.pid != 0
        &&& self.name@.len() > 0
        &&& forall|i: int| 0 <= i < self.name@.len() ==> !is_separator(#[trigger] self.name@[i])
    }

    pub closed spec fn spec_pid(&self) -> u32 {
        self.pid
    }

    pub closed spec fn spec_name(&self) -> Seq<char> {
        self.name@
    }

    pub closed spec fn spec_handle(&self) -> ProcessHandle {
        self.handle
    }

    /// The process behind `handle`, whose id is `pid` (as `GetProcessId`
    /// reports it, never 0) and whose image path the kernel gave as
    /// `image_path`: its name is the file name of that path. A failure to read
    /// the path is passed on.
    pub fn from_handle(handle: ProcessHandle, pid: u32, image_path: Result<String, Error>) -> (r:
        Result<Process, Error>)
        requires
            pid != 0,
            image_path matches Ok(p) ==> file_name_of(p@) is Some,
        ensures
            match image_path {
                Err(e) => r == Err::<Process, Error>(e),
                Ok(p) => r matches Ok(q) && q.spec_pid() == pid && Some(q.spec_name())
                    == file_name_of(p@) && q.spec_handle() == handle && (no_ascii_upper(p@)
                    ==> no_ascii_upper(q.spec_name())),
            },
    {
        match image_path {
            Err(e) => Err(e),
            Ok(path) => {
                proof {
                    lemma_file_name_within(path@);
                }
                match file_name(path.as_str()) {
                    Some(chars) => {
                        let name = string_from_chars(chars);
                        proof {
                            if no_ascii_upper(path@) {
                                assert forall|i: int| 0 <= i < name@.len() implies !('A' <= #[trigger] name@[i]
                                    <= 'Z') by {
                                    let j = choose|j: int| 0 <= j < path@.len() && path@[j] == name@[i];
                                }
                            }
                        }
                        Ok(Process { pid, name, handle })
                    },
                    // Not reached: the path has a file name.
                    None => Err(Error::InvalidUtf16),
                }
            },
        }
    }

    /// Find a process by its name in the snapshot `entries`, read in order
    /// up to its end or its first error: the pid of the first process whose
    /// executable is named `name` (ASCII letters compared without regard to
    /// case), nothing if there is none, or the first error read before a
    /// match.
    pub fn from_name(name: &str, entries: Vec<Result<ProcessEntry, Error>>) -> (r: Result<
        Option<u32>,
        Error,
    >)
        requires
            name_search_defined(entries@, name@),
        ensures
            r == name_search(entries@, name@),
    {
        let ghost all = entries@;
        let mut list = entries;
        let mut i: usize = 0;
        assert(all.skip(0) =~= all);
        while i < list.len()
            invariant
                list@ == all,
                all == entries@,
                i <= all.len(),
                name_search(all, name@) == name_search(all.skip(i as int), name@),
                name_search_defined(all.skip(i as int), name@),
            decreases all.len() - i,
        {
            let ghost rest = all.skip(i as int);
            assert(rest[0] == all[i as int]);
            assert(rest.skip(1) =~= all.skip(i + 1));
            let mut failed = false;
            match &list[i] {
                Ok(p) => {
                    if p.matches(name) {
                        return Ok(Some(p.pid));
                    }
                },
                Err(_) => {
                    failed = true;
                },
            }
            if failed {
                let entry = list.remove(i);
                assert(entry == rest[0]);
                match entry {
                    Err(e) => {
                        return Err(e);
                    },
                    Ok(_) => {
                        return Ok(None);
                    },
                }
            }
            i = i + 1;
        }
        assert(all.skip(i as int) =~= Seq::<Result<ProcessEntry, Error>>::empty());
        Ok(None)
    }

    /// Reads one entry of the snapshot while looking for `name`: stop with
    /// an error, stop with a pid, or read on.
    pub fn search_step(name: &str, entry: Result<ProcessEntry, Error>) -> (r: SearchStep)
        requires
            entry matches Ok(p) ==> has_nul(p.exe_file@),
        ensures
            r == search_step(entry, name@),
    {
        match entry {
            Err(e) => SearchStep::Failed(e),
            Ok(p) => if p.matches(name) {
                SearchStep::Found(p.pid)
            } else {
                SearchStep::Next
            },
        }
    }

    /// The process that was looked for, or [`Error::NoProcessFound`] when
    /// there is none.
    pub fn found<T>(found: Option<T>) -> (r: Result<T, Error>)
        ensures
            match found {
                Some(p) => r == Ok::<T, Error>(p),
                None => r == Err::<T, Error>(Error::NoProcessFound),
            },
    {
        match found {
            Some(p) => Ok(p),
            None => Err(Error::NoProcessFound),
        }
    }

    /// Whether every entry that [`Process::from_name`] reads has a nul in its
    /// name buffer, as it requires.
    pub fn from_name_defined(name: &str, entries: &Vec<Result<ProcessEntry, Error>>) -> (r: bool)
        ensures
            r == name_search_defined(entries@, name@),
    {
        let ghost all = entries@;
        let mut i: usize = 0;
        assert(all.skip(0) =~= all);
        while i < entries.len()
            invariant
                entries@ == all,
                i <= all.len(),
                name_search_defined(all, name@) == name_search_defined(
                    all.skip(i as int),
                    name@,
                ),
            decreases all.len() - i,
        {
            let ghost rest = all.skip(i as int);
            assert(rest[0] == all[i as int]);
            assert(rest.skip(1) =~= all.skip(i + 1));
            match &entries[i] {
                Err(_) => {
                    return true;
                },
                Ok(p) => {
                    match first_nul(p.exe_file.as_slice()) {
                        None => {
                            return false;
                        },
                        Some(_) => {
                            if p.matches(name) {
                                return true;
                            }
                        },
                    }
                },
            }
            i = i + 1;
        }
        assert(all.skip(i as int) =~= Seq::<Result<ProcessEntry, Error>>::empty());
        true
    }

    /// The handle `OpenProcess` returned for a process, the thread's last
    /// error being `last_error` then: an invalid handle means the process
    /// could not be opened.
    pub fn opened_handle(handle: Handle, last_error: u32) -> (r: Result<Handle, Error>)
        ensures
            handle.spec_invalid() ==> r == Err::<Handle, Error>(
                Error::ApiFailed { api: WinApi::OpenProcess, code: win32_to_hresult(last_error) },
            ),
            !handle.spec_invalid() ==> r == Ok::<Handle, Error>(handle),
    {
        if handle.is_invalid() {
            return Err(Error::api_failed(WinApi::OpenProcess, last_error));
        }
        Ok(handle)
    }

    pub fn pid(&self) -> (r: u32)
        ensures
            r == self.spec_pid(),
            r != 0,
    {
        proof {
            use_type_invariant(self);
        }
        self.pid
    }

    pub fn name(&self) -> (r: &str)
        ensures
            r@ == self.spec_name(),
            r@.len() > 0,
            forall|i: int| 0 <= i < r@.len() ==> !is_separator(#[trigger] r@[i]),
    {
        proof {
            use_type_invariant(self);
        }
        self.name.as_str()
    }

    /// The process handle.
    pub fn handle(&self) -> (r: &ProcessHandle)
        ensures
            *r == self.spec_handle(),
    {
        &self.handle
    }
}

/// The snapshot call to make next.
#[derive(Debug, Clone, Copy, PartialEq, Eq, Structural)]
pub enum SnapshotCall {
    /// `Process32FirstW`.
    First,
    /// `Process32NextW`.
    Next,
}

/// What a snapshot call gave.
#[derive(Debug)]
pub enum SnapshotStep {
    /// The call filled in an entry.
    Entry,
    /// The call failed.
    Failed(Error),
    /// There are no more entries.
    End,
}

/// The kernel's answer to `call`: whether it succeeded, and the thread's
/// last-error code after it.
pub open spec fn snapshot_step(call: SnapshotCall, succeeded: bool, last_error: u32) -> SnapshotStep {
    if succeeded {
        SnapshotStep::Entry
    } else if call == SnapshotCall::First {
        SnapshotStep::Failed(
            Error::ApiFailed { api: WinApi::Process32FirstW, code: win32_to_hresult(last_error) },
        )
    } else if last_error != ERROR_NO_MORE_FILES {
        SnapshotStep::Failed(
            Error::ApiFailed { api: WinApi::Process32NextW, code: win32_to_hresult(last_error) },
        )
    } else {
        SnapshotStep::End
    }
}

/// A walk over the kernel's process snapshot.
#[derive(Debug)]
pub struct ProcessesIter {
    snapshot: Handle,
    first: bool,
}

impl ProcessesIter {
    pub closed spec fn spec_first(&self) -> bool {
        self.first
    }

    pub closed spec fn spec_snapshot(&self) -> Handle {
        self.snapshot
    }

    fn new(snapshot: Handle) -> (r: ProcessesIter)
        ensures
            r.spec_first(),
            r.spec_snapshot() == snapshot,
    {
        ProcessesIter { snapshot, first: true }
    }

    /// The snapshot handle.
    pub fn snapshot(&self) -> (r: &Handle)
        ensures
            *r == self.spec_snapshot(),
    {
        &self.snapshot
    }

    /// The call that reads the next entry: `Process32FirstW` the first time,
    /// `Process32NextW` afterwards.
    pub fn next_call(&mut self) -> (r: SnapshotCall)
        ensures
            r == (if old(self).spec_first() { SnapshotCall::First } else { SnapshotCall::Next }),
            !final(self).spec_first(),
            final(self).spec_snapshot() == old(self).spec_snapshot(),
    {
        if self.first {
            self.first = false;
            SnapshotCall::First
        } else {
            SnapshotCall::Next
        }
    }

    /// What the answer to `call` means: an entry, an error, or the end of
    /// the snapshot (only `Process32NextW` failing with
    /// `ERROR_NO_MORE_FILES` ends it).
    pub fn step(call: SnapshotCall, succeeded: bool, last_error: u32) -> (r: SnapshotStep)
        ensures
            r == snapshot_step(call, succeeded, last_error),
    {
        if succeeded {
            SnapshotStep::Entry
        } else if call == SnapshotCall::First {
            SnapshotStep::Failed(Error::api_failed(WinApi::Process32FirstW, last_error))
        } else if last_error != ERROR_NO_MORE_FILES {
            SnapshotStep::Failed(Error::api_failed(WinApi::Process32NextW, last_error))
        } else {
            SnapshotStep::End
        }
    }
}

/// The processes of the system.
#[derive(Debug)]
pub struct Processes;

impl Processes {
    /// Starts a walk over the snapshot `snapshot`, which
    /// `CreateToolhelp32Snapshot` returned, leaving `last_error` as the
    /// thread's last error: an invalid snapshot is that Win32 error.
    pub fn iter(snapshot: Handle, last_error: u32) -> (r: Result<ProcessesIter, Error>)
        ensures
            snapshot.spec_invalid() ==> r == Err::<ProcessesIter, Error>(
                Error::Win32 { code: win32_to_hresult(last_error) },
            ),
            !snapshot.spec_invalid() ==> (r matches Ok(it) && it.spec_first()
                && it.spec_snapshot() == snapshot),
    {
        if snapshot.is_invalid() {
            return Err(Error::from_win32(last_error));
        }
        Ok(ProcessesIter::new(snapshot))
    }
}

/// A walk over the address space of a process, region by region, from the
/// lowest to the highest application address.
#[derive(Debug)]
pub struct VirtMemIterator {
    handle: ProcessHandle,
    addr: usize,
    max: usize,
}

impl VirtMemIterator {
    pub closed spec fn spec_addr(&self) -> usize {
        self.addr
    }

    pub closed spec fn spec_max(&self) -> usize {
        self.max
    }

    pub closed spec fn spec_handle(&self) -> ProcessHandle {
        self.handle
    }

    /// A walk over the process behind `handle` between the system's lowest
    /// and highest application addresses.
    pub fn new(handle: ProcessHandle, min_addr: usize, max_addr: usize) -> (r: VirtMemIterator)
        ensures
            r.spec_addr() == min_addr,
            r.spec_max() == max_addr,
            r.spec_handle() == handle,
    {
        VirtMemIterator { handle, addr: min_addr, max: max_addr }
    }

    /// The process handle.
    pub fn handle(&self) -> (r: &ProcessHandle)
        ensures
            *r == self.spec_handle(),
    {
        &self.handle
    }

    /// The current address.
    pub fn address(&self) -> (r: usize)
        ensures
            r == self.spec_addr(),
    {
        self.addr
    }

    /// The address to query next, or nothing once the walk has reached the
    /// highest application address.
    pub fn next_address(&self) -> (r: Option<usize>)
        ensures
            r == (if self.spec_addr() >= self.spec_max() {
                None::<usize>
            } else {
                Some(self.spec_addr())
            }),
    {
        if self.addr >= self.max {
            None
        } else {
            Some(self.addr)
        }
    }

    /// Goes on after `VirtualQueryEx` on the current address wrote `written`
    /// bytes of `region` and left `last_error` as the thread's last error:
    /// nothing written is a failure, which leaves the walk where it was;
    /// otherwise the walk moves to the end of the region.
    pub fn on_query(&mut self, written: usize, region: MemoryRegion, last_error: u32) -> (r: Result<
        MemoryRegion,
        Error,
    >)
        requires
            written != 0 ==> region.size != 0 && region.base + region.size <= usize::MAX,
        ensures
            written == 0 ==> r == Err::<MemoryRegion, Error>(
                Error::ApiFailed { api: WinApi::VirtualQueryEx, code: win32_to_hresult(last_error) },
            ) && final(self).spec_addr() == old(self).spec_addr(),
            written != 0 ==> r == Ok::<MemoryRegion, Error>(region) && final(self).spec_addr()
                == region.base + region.size,
            final(self).spec_max() == old(self).spec_max(),
            final(self).spec_handle() == old(self).spec_handle(),
    {
        if written == 0 {
            return Err(Error::api_failed(WinApi::VirtualQueryEx, last_error));
        }
        self.addr = region.base + region.size;
        Ok(region)
    }
}

/// A search ends on the first entry that is an error or a match: the pid it
/// finds belongs to a matching entry with only non-matching processes before
/// it, and when it finds nothing, every entry is a process that does not
/// match.
pub proof fn lemma_name_search_first_match(entries: Seq<Result<ProcessEntry, Error>>, name: Seq<char>)
    ensures
        name_search(entries, name) matches Ok(Some(pid)) ==> exists|k: int|
            0 <= k < entries.len() && (#[trigger] entries[k] matches Ok(p) && p.pid == pid
                && entry_matches(p.exe_file@, name)) && forall|j: int|
                0 <= j < k ==> (#[trigger] entries[j] matches Ok(q) && !entry_matches(
                    q.exe_file@,
                    name,
                )),
        name_search(entries, name) == Ok::<Option<u32>, Error>(None) ==> forall|j: int|
            0 <= j < entries.len() ==> (#[trigger] entries[j] matches Ok(q) && !entry_matches(
                q.exe_file@,
                name,
            )),
    decreases entries.len(),
{
    if entries.len() > 0 {
        let rest = entries.skip(1);
        lemma_name_search_first_match(rest, name);
        match entries[0] {
            Err(_) => {},
            Ok(p) => {
                if !entry_matches(p.exe_file@, name) {
                    if let Ok(Some(pid)) = name_search(rest, name) {
                        let k = choose|k: int|
                            0 <= k < rest.len() && (#[trigger] rest[k] matches Ok(p) && p.pid
                                == pid && entry_matches(p.exe_file@, name)) && forall|j: int|
                                0 <= j < k ==> (#[trigger] rest[j] matches Ok(q)
                                    && !entry_matches(q.exe_file@, name));
                        assert(entries[k + 1] == rest[k]);
                        assert forall|j: int| 0 <= j < k + 1 implies (#[trigger] entries[j] matches Ok(
                            q,
                        ) && !entry_matches(q.exe_file@, name)) by {
                            if j > 0 {
                                assert(entries[j] == rest[j - 1]);
                            }
                        }
                    }
                    if name_search(rest, name) == Ok::<Option<u32>, Error>(None) {
                        assert forall|j: int| 0 <= j < entries.len() implies (
                        #[trigger] entries[j] matches Ok(q) && !entry_matches(q.exe_file@, name)) by {
                            if j > 0 {
                                assert(entries[j] == rest[j - 1]);
                            }
                        }
                    }
                }
            },
        }
    }
}

/// Names that differ only in the case of ASCII letters find the same
/// processes.
pub proof fn lemma_name_case_insensitive(exe_file: Seq<u16>, a: Seq<char>, b: Seq<char>)
    requires
        eq_ignore_ascii_case(a, b),
    ensures
        entry_matches(exe_file, a) == entry_matches(exe_file, b),
{
    let e = decode_utf16_lossy(before_nul(exe_file));
    if entry_matches(exe_file, a) {
        assert forall|i: int| 0 <= i < e.len() implies ascii_fold(#[trigger] e[i]) == ascii_fold(b[i]) by {
            assert(ascii_fold(e[i]) == ascii_fold(a[i]));
            assert(ascii_fold(a[i]) == ascii_fold(b[i]));
        }
    }
    if entry_matches(exe_file, b) {
        assert forall|i: int| 0 <= i < e.len() implies ascii_fold(#[trigger] e[i]) == ascii_fold(a[i]) by {
            assert(ascii_fold(e[i]) == ascii_fold(b[i]));
            assert(ascii_fold(a[i]) == ascii_fold(b[i]));
        }
    }
}

/// Names that differ only in the case of ASCII letters give the same search
/// over the same snapshot: the same entry, pid or error.
pub proof fn lemma_name_search_case_insensitive(
    entries: Seq<Result<ProcessEntry, Error>>,
    a: Seq<char>,
    b: Seq<char>,
)
    requires
        eq_ignore_ascii_case(a, b),
    ensures
        name_search(entries, a) == name_search(entries, b),
    decreases entries.len(),
{
    if entries.len() > 0 {
        lemma_name_search_case_insensitive(entries.skip(1), a, b);
        if let Ok(p) = entries[0] {
            lemma_name_case_insensitive(p.exe_file@, a, b);
        }
    }
}

/// The first read of a snapshot never ends it: it is an entry when
/// `Process32FirstW` succeeds and that call's error otherwise, whatever the
/// last error is. Only a later read (`Process32NextW`) can end the walk, and
/// only with `ERROR_NO_MORE_FILES`.
pub proof fn lemma_first_read_never_ends(succeeded: bool, last_error: u32)
    ensures
        !(snapshot_step(SnapshotCall::First, succeeded, last_error) is End),
        succeeded ==> snapshot_step(SnapshotCall::First, succeeded, last_error) is Entry,
        !succeeded ==> snapshot_step(SnapshotCall::First, succeeded, last_error)
            == SnapshotStep::Failed(
            Error::ApiFailed { api: WinApi::Process32FirstW, code: win32_to_hresult(last_error) },
        ),
        snapshot_step(SnapshotCall::Next, succeeded, last_error) is End <==> !succeeded
            && last_error == 18,
{
}

/// Searching a snapshot is reading it one entry at a time with
/// [`Process::search_step`] until a step says to stop: the search's outcome
/// is that step's.
pub proof fn lemma_search_by_steps(entries: Seq<Result<ProcessEntry, Error>>, name: Seq<char>)
    requires
        entries.len() > 0,
    ensures
        name_search(entries, name) == (match search_step(entries[0], name) {
            SearchStep::Next => name_search(entries.skip(1), name),
            SearchStep::Found(pid) => Ok(Some(pid)),
            SearchStep::Failed(e) => Err(e),
        }),
{
}

} // verus!
