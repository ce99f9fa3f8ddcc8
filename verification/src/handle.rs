//! Kernel handles: who owns them, when they are valid, which are processes.
use vstd::prelude::*;
use crate::error::{Error, win32_to_hresult};
use crate::text::units_eq;

verus! {

/// `INVALID_HANDLE_VALUE`, as an integer.
pub const INVALID_HANDLE_VALUE: isize = -1isize;

/// A kernel handle, by its value, and whether it is owned: an owned handle
/// is to be closed when it is no longer used, a wrapped one is not.
#[derive(Debug)]
pub struct Handle {
    handle: isize,
    owned: bool,
}

impl Handle {
    /// The handle's value.
    pub closed spec fn value(&self) -> isize {
        self.handle
    }

    /// Whether the handle is owned.
    pub closed spec fn owns(&self) -> bool {
        self.owned
    }

    /// Whether the value is not a handle: null or `INVALID_HANDLE_VALUE`.
    pub open spec fn spec_invalid(&self) -> bool {
        self.value() == 0 || self.value() == INVALID_HANDLE_VALUE
    }

    /// Adopt a handle, and own it going forward.
    pub fn adopt(handle: isize) -> (r: Handle)
        ensures
            r.value() == handle,
            r.owns(),
    {
        Handle { handle, owned: true }
    }

    /// Wrap a handle but don't own it.
    pub fn wrap(handle: isize) -> (r: Handle)
        ensures
            r.value() == handle,
            !r.owns(),
    {
        Handle { handle, owned: false }
    }

    pub fn is_owned(&self) -> (r: bool)
        ensures
            r == self.owns(),
    {
        self.owned
    }

    pub fn is_invalid(&self) -> (r: bool)
        ensures
            r == self.spec_invalid(),
    {
        self.handle == 0 || self.handle == INVALID_HANDLE_VALUE
    }

    /// The handle's value, to hand to the kernel.
    pub fn raw(&self) -> (r: isize)
        ensures
            r == self.value(),
    {
        self.handle
    }

    /// Whether the handle is to be closed when it is dropped: only an owned,
    /// valid handle is.
    pub fn should_close(&self) -> (r: bool)
        ensures
            r == (self.owns() && !self.spec_invalid()),
    {
        self.is_owned() && !self.is_invalid()
    }

    /// Completes the duplication of this handle: `succeeded` is whether
    /// `DuplicateHandle` succeeded, `duplicated` the handle it wrote and
    /// `last_error` the thread's last error after it. The duplicate is owned;
    /// a failure is the Win32 error of the last error.
    pub fn duplicate(&self, succeeded: bool, duplicated: isize, last_error: u32) -> (r: Result<
        Handle,
        Error,
    >)
        ensures
            succeeded ==> (r matches Ok(h) && h.value() == duplicated && h.owns()),
            !succeeded ==> r == Err::<Handle, Error>(
                Error::Win32 { code: win32_to_hresult(last_error) },
            ),
    {
        if succeeded {
            Ok(Handle::adopt(duplicated))
        } else {
            Err(Error::from_win32(last_error))
        }
    }
}

impl Default for Handle {
    /// An invalid handle, not owned.
    fn default() -> (r: Handle)
        ensures
            r.value() == INVALID_HANDLE_VALUE,
            !r.owns(),
    {
        Handle { handle: INVALID_HANDLE_VALUE, owned: false }
    }
}

/// `windows_core::NTSTATUS::is_err`: whether an `NTSTATUS` is a failure;
/// the contract claims that a failure is exactly a negative value.
#[verifier::external_body]
fn ntstatus_is_err(status: i32) -> (r: bool)
    ensures
        r == (status < 0),
{
    windows_core::NTSTATUS(status).is_err()
}

/// The type name `Process`, in UTF-16.
pub open spec fn process_type_name() -> Seq<u16> {
    seq![80u16, 114u16, 111u16, 99u16, 101u16, 115u16, 115u16]
}

/// A handle that is known to be a process handle.
#[derive(Debug)]
pub struct ProcessHandle(Handle);

impl ProcessHandle {
    /// The handle it wraps.
    pub closed spec fn inner(&self) -> Handle {
        self.0
    }

    fn new(handle: Handle) -> (r: ProcessHandle)
        ensures
            r.inner() == handle,
    {
        ProcessHandle(handle)
    }

    /// Keeps `handle` as a process handle when the kernel's object-type query
    /// on it succeeded (`query_status` is not a failure `NTSTATUS`) and the
    /// type name it reported (`kind_name`, UTF-16) is `Process`; a name that
    /// is not valid UTF-16 is not `Process` either.
    pub fn from_handle(handle: Handle, query_status: i32, kind_name: &[u16]) -> (r: Option<
        ProcessHandle,
    >)
        ensures
            r is Some <==> (query_status >= 0 && kind_name@ == process_type_name()),
            r matches Some(p) ==> p.inner() == handle,
    {
        if ntstatus_is_err(query_status) {
            return None;
        }
        let process: [u16; 7] = [80u16, 114u16, 111u16, 99u16, 101u16, 115u16, 115u16];
        assert(process@ == process_type_name());
        if units_eq(kind_name, process.as_slice()) {
            Some(ProcessHandle::new(handle))
        } else {
            None
        }
    }

    /// Completes the duplication of this process handle, as
    /// [`Handle::duplicate`] does: the duplicate of a process handle is one
    /// too, and owned.
    pub fn duplicate(&self, succeeded: bool, duplicated: isize, last_error: u32) -> (r: Result<
        ProcessHandle,
        Error,
    >)
        ensures
            succeeded ==> (r matches Ok(p) && p.inner().value() == duplicated
                && p.inner().owns()),
            !succeeded ==> r == Err::<ProcessHandle, Error>(
                Error::Win32 { code: win32_to_hresult(last_error) },
            ),
    {
        match self.0.duplicate(succeeded, duplicated, last_error) {
            Ok(h) => Ok(ProcessHandle::new(h)),
            Err(e) => Err(e),
        }
    }

    /// The handle it wraps.
    pub fn handle(&self) -> (r: &Handle)
        ensures
            *r == self.inner(),
    {
        &self.0
    }

    /// The handle's value, to hand to the kernel.
    pub fn raw(&self) -> (r: isize)
        ensures
            r == self.inner().value(),
    {
        self.0.raw()
    }
}

} // verus!
