//! Errors of the library, kept as plain data.
//!
//! A failure is either a Win32 error (an `HRESULT`, as `windows_core` reports
//! the calling thread's last error), or one of the library's own failures.
//! Only the first kind is worth retrying with more privileges.
use vstd::prelude::*;

verus! {

/// The Win32 error code `ERROR_ACCESS_DENIED`.
pub const ERROR_ACCESS_DENIED: u32 = 5;

/// The `HRESULT` `E_ACCESSDENIED` (0x80070005).
pub const E_ACCESSDENIED: i32 = -2147024891i32;

/// The `HRESULT` that wraps the Win32 error code `code`: codes that read as a
/// non-positive `i32` are kept as they are, the others get the low 16 bits,
/// the Win32 facility and the failure bit.
pub open spec fn win32_to_hresult(code: u32) -> i32 {
    if (code as i32) <= 0 {
        code as i32
    } else {
        ((code & 0xFFFFu32) | 0x0007_0000u32 | 0x8000_0000u32) as i32
    }
}

/// `windows_core::WIN32_ERROR::to_hresult`: maps a Win32 error code to the
/// `HRESULT` that `windows_core` reports for it; the contract claims that
/// this is [`win32_to_hresult`].
#[verifier::external_body]
fn hresult_from_win32(code: u32) -> (r: i32)
    ensures
        r == win32_to_hresult(code),
{
    windows_core::WIN32_ERROR(code).to_hresult().0
}

/// The operating-system calls whose failure is reported with the call's name.
#[derive(Debug, Clone, Copy, PartialEq, Eq, Structural)]
pub enum WinApi {
    OpenProcess,
    OpenProcessToken,
    GetTokenInformation,
    LookupPrivilegeNameA,
    AdjustTokenPrivileges,
    Process32FirstW,
    Process32NextW,
    VirtualQueryEx,
    GetConsoleMode,
    SetConsoleMode,
}

/// Everything that can go wrong.
#[derive(Debug)]
pub enum Error {
    /// A Win32 error, by its `HRESULT`.
    Win32 { code: i32 },
    /// `api` failed; `code` is the `HRESULT` of the thread's last error then.
    ApiFailed { api: WinApi, code: i32 },
    /// The first attempt at locking a range failed with this `NTSTATUS`.
    LockFailed { status: i32 },
    /// Locking `start..end` failed again, with this `NTSTATUS`, after the
    /// working set was grown.
    RelockFailed { start: u64, end: u64, status: i32 },
    /// The size of the token's privileges changed between the two queries.
    TokenSizeChanged,
    /// A privilege name buffer did not hold exactly one nul, at its end:
    /// `interior_nul` is the position of a nul before the end, if any.
    InvalidPrivilegeName { bytes: Vec<u8>, interior_nul: Option<usize> },
    /// The privilege was adjusted but not assigned.
    NotAllAssigned,
    /// A process image path was not valid UTF-16.
    InvalidUtf16,
    /// No process has the pid or the name asked for.
    NoProcessFound,
}

/// What to do when opening and locking a process failed.
#[derive(Debug, Clone, Copy, PartialEq, Eq, Structural)]
pub enum Recovery {
    /// Access was denied: acquire `SeDebugPrivilege` and try once more.
    RetryWithDebugPrivilege,
    /// Another Win32 error: give up quietly.
    GiveUp,
    /// Anything else is a bug: stop with a panic.
    Abort,
}

impl Error {
    /// The Win32 error that `windows_core` builds from the last-error code
    /// `code` of the calling thread.
    pub fn from_win32(code: u32) -> (r: Error)
        ensures
            r == (Error::Win32 { code: win32_to_hresult(code) }),
    {
        Error::Win32 { code: hresult_from_win32(code) }
    }

    /// `api` failed and the thread's last-error code was `last_error`.
    pub fn api_failed(api: WinApi, last_error: u32) -> (r: Error)
        ensures
            r == (Error::ApiFailed { api, code: win32_to_hresult(last_error) }),
    {
        Error::ApiFailed { api, code: hresult_from_win32(last_error) }
    }

    pub open spec fn spec_is_win32(&self) -> bool {
        self is Win32
    }

    pub open spec fn spec_is_access_denied(&self) -> bool {
        self matches Error::Win32 { code } && code == E_ACCESSDENIED
    }

    /// Whether this is a Win32 error.
    pub fn is_win32(&self) -> (r: bool)
        ensures
            r == self.spec_is_win32(),
    {
        match self {
            Error::Win32 { .. } => true,
            _ => false,
        }
    }

    /// Whether this is the Win32 error `E_ACCESSDENIED`.
    pub fn is_access_denied(&self) -> (r: bool)
        ensures
            r == self.spec_is_access_denied(),
    {
        match self {
            Error::Win32 { code } => *code == E_ACCESSDENIED,
            _ => false,
        }
    }

    pub open spec fn spec_recovery(&self) -> Recovery {
        if self.spec_is_access_denied() {
            Recovery::RetryWithDebugPrivilege
        } else if self.spec_is_win32() {
            Recovery::GiveUp
        } else {
            Recovery::Abort
        }
    }

    /// How the program reacts to this error when opening and locking a
    /// process failed.
    pub fn recovery(&self) -> (r: Recovery)
        ensures
            r == self.spec_recovery(),
    {
        if self.is_access_denied() {
            Recovery::RetryWithDebugPrivilege
        } else if self.is_win32() {
            Recovery::GiveUp
        } else {
            Recovery::Abort
        }
    }
}

/// How a failure is reacted to: only the Win32 error `E_ACCESSDENIED`
/// (0x80070005) is retried with the debug privilege; only other Win32 errors
/// are given up on quietly; every other error (a failed call reported by
/// name, a lock failure, no process found, ...) aborts.
pub proof fn lemma_recovery(e: Error)
    ensures
        (e.spec_recovery() == Recovery::RetryWithDebugPrivilege) <==> (e matches Error::Win32 { code }
            && code == -2147024891i32),
        (e.spec_recovery() == Recovery::GiveUp) <==> (e matches Error::Win32 { code } && code
            != -2147024891i32),
        (e.spec_recovery() == Recovery::Abort) <==> !(e is Win32),
{
}

/// `ERROR_ACCESS_DENIED` from the calling thread is the `HRESULT`
/// `E_ACCESSDENIED`, so it leads to a retry with the debug privilege.
pub proof fn lemma_access_denied_is_retried()
    ensures
        (Error::Win32 { code: win32_to_hresult(ERROR_ACCESS_DENIED) }).spec_is_access_denied(),
        (Error::Win32 { code: win32_to_hresult(ERROR_ACCESS_DENIED) }).spec_recovery()
            == Recovery::RetryWithDebugPrivilege,
{
    let c: u32 = 5;
    assert(((c & 0xFFFFu32) | 0x0007_0000u32 | 0x8000_0000u32) as i32 == -2147024891i32)
        by (bit_vector)
        requires c == 5u32;
    assert(!((c as i32) <= 0)) by (bit_vector) requires c == 5u32;
}

} // verus!
