//! The privileges of the current process's token, and enabling one of them.
use vstd::prelude::*;
use crate::error::{Error, WinApi, win32_to_hresult};
use crate::handle::Handle;

verus! {

/// `SE_PRIVILEGE_ENABLED`: the attribute bit of an enabled privilege.
pub const SE_PRIVILEGE_ENABLED: u32 = 0x2;

/// `ERROR_NOT_ALL_ASSIGNED`.
pub const ERROR_NOT_ALL_ASSIGNED: u32 = 1300;

/// The longest privilege name buffer asked for, nul included.
pub const MAX_PRIVILEGE_NAME_LEN: usize = 64;

/// `SeDebugPrivilege`, as bytes.
pub open spec fn se_debug_name() -> Seq<u8> {
    seq![83u8, 101u8, 68u8, 101u8, 98u8, 117u8, 103u8, 80u8, 114u8, 105u8, 118u8, 105u8, 108u8, 101u8, 103u8, 101u8]
}

/// The name of the debug privilege, `SeDebugPrivilege`.
pub fn se_debug_privilege() -> (r: Vec<u8>)
    ensures
        r@ == se_debug_name(),
{
    let r: Vec<u8> = vec![83u8, 101u8, 68u8, 101u8, 98u8, 117u8, 103u8, 80u8, 114u8, 105u8, 118u8, 105u8, 108u8, 101u8, 103u8, 101u8];
    assert(r@ =~= se_debug_name());
    r
}

/// Whether `p` is held (present and enabled) in the privileges `m`.
pub open spec fn held(m: Map<Seq<u8>, bool>, p: Seq<u8>) -> bool {
    m.dom().contains(p) && m[p]
}

/// The privilege that acquiring `SeDebugPrivilege` asks to enable, given
/// the privileges `m`: none when it is held.
pub open spec fn sedebug_request(m: Map<Seq<u8>, bool>) -> Option<Seq<u8>> {
    if held(m, se_debug_name()) {
        None
    } else {
        Some(se_debug_name())
    }
}

/// Whether a privilege with these attributes is enabled.
pub fn is_enabled(attributes: u32) -> (r: bool)
    ensures
        r == (attributes & SE_PRIVILEGE_ENABLED != 0),
{
    attributes & SE_PRIVILEGE_ENABLED != 0
}

/// The two sizes the token's privileges were reported with must agree.
pub fn check_token_size(needed: u32, written: u32) -> (r: Result<(), Error>)
    ensures
        r == (if written == needed { Ok::<(), Error>(()) } else { Err(Error::TokenSizeChanged) }),
{
    if written != needed {
        return Err(Error::TokenSizeChanged);
    }
    Ok(())
}

/// The size of the buffer a privilege name is read into, for the size the
/// kernel reported: at least one byte and at most
/// [`MAX_PRIVILEGE_NAME_LEN`].
pub fn name_capacity(reported: u32) -> (r: usize)
    ensures
        r == (if reported < 1 {
            1
        } else if reported > MAX_PRIVILEGE_NAME_LEN {
            MAX_PRIVILEGE_NAME_LEN as int
        } else {
            reported as int
        }),
{
    if reported < 1 {
        1
    } else if reported as u64 > MAX_PRIVILEGE_NAME_LEN as u64 {
        MAX_PRIVILEGE_NAME_LEN
    } else {
        reported as usize
    }
}

/// Whether `n` is the position of the first zero byte of `s`.
pub open spec fn is_first_zero(s: Seq<u8>, n: int) -> bool {
    &&& 0 <= n < s.len()
    &&& s[n] == 0
    &&& forall|j: int| 0 <= j < n ==> s[j] != 0
}

/// What `CString::from_vec_with_nul` makes of `buf`: the bytes before the
/// nul when the only nul is the last byte; otherwise an error that carries
/// the bytes and the position of the first nul if it comes before the end.
pub open spec fn name_from_buffer(buf: Seq<u8>) -> Result<Seq<u8>, Option<int>> {
    if exists|n: int| is_first_zero(buf, n) {
        let n = choose|n: int| is_first_zero(buf, n);
        if n + 1 == buf.len() {
            Ok(buf.take(n))
        } else {
            Err(Some(n))
        }
    } else {
        Err(None)
    }
}

/// The privilege name in the buffer `buf` that `LookupPrivilegeNameA` filled
/// in, read as `CString::from_vec_with_nul` reads it.
pub fn privilege_name(buf: Vec<u8>) -> (r: Result<Vec<u8>, Error>)
    ensures
        match name_from_buffer(buf@) {
            Ok(name) => r matches Ok(v) && v@ == name,
            Err(pos) => r matches Err(Error::InvalidPrivilegeName { bytes, interior_nul })
                && bytes@ == buf@ && (pos matches Some(p) <==> interior_nul is Some)
                && (interior_nul matches Some(q) ==> pos == Some(q as int)),
        },
{
    let mut i: usize = 0;
    while i < buf.len()
        invariant
            i <= buf.len(),
            forall|j: int| 0 <= j < i ==> buf@[j] != 0,
        decreases buf.len() - i,
    {
        if buf[i] == 0 {
            let ghost n = choose|n: int| is_first_zero(buf@, n);
            assert(is_first_zero(buf@, i as int));
            assert(n == i) by {
                if n < i {
                    assert(buf@[n] != 0);
                }
                if i < n {
                    assert(buf@[i as int] != 0);
                }
            }
            if i + 1 == buf.len() {
                let mut name = buf;
                let ghost full = name@;
                name.pop();
                assert(name@ =~= full.take(i as int));
                return Ok(name);
            } else {
                return Err(Error::InvalidPrivilegeName { bytes: buf, interior_nul: Some(i) });
            }
        }
        i = i + 1;
    }
    Err(Error::InvalidPrivilegeName { bytes: buf, interior_nul: None })
}

fn bytes_eq(a: &[u8], b: &[u8]) -> (r: bool)
    ensures
        r == (a@ == b@),
{
    if a.len() != b.len() {
        return false;
    }
    let mut i: usize = 0;
    while i < a.len()
        invariant
            i <= a.len(),
            a.len() == b.len(),
            forall|j: int| 0 <= j < i ==> a@[j] == b@[j],
        decreases a.len() - i,
    {
        if a[i] != b[i] {
            return false;
        }
        i = i + 1;
    }
    assert(a@ =~= b@);
    true
}

/// What acquiring `SeDebugPrivilege` takes.
#[derive(Debug)]
pub enum SedebugRequest {
    /// `SeDebugPrivilege` is held already: nothing to do.
    Held,
    /// Enable the privilege with this name.
    Enable(Vec<u8>),
}

/// Whether no two entries of `l` have the same name.
pub open spec fn unique_names(l: Seq<(Vec<u8>, bool)>) -> bool {
    forall|i: int, j: int|
        0 <= i < l.len() && 0 <= j < l.len() && i != j ==> #[trigger] l[i].0@ != #[trigger] l[j].0@
}

/// Whether `l` has an entry named `k`.
pub open spec fn has_name(l: Seq<(Vec<u8>, bool)>, k: Seq<u8>) -> bool {
    exists|i: int| 0 <= i < l.len() && #[trigger] l[i].0@ == k
}

/// The entries of `l` as a map from name to whether it is enabled.
pub open spec fn entries_map(l: Seq<(Vec<u8>, bool)>) -> Map<Seq<u8>, bool> {
    Map::new(
        |k: Seq<u8>| has_name(l, k),
        |k: Seq<u8>| l[choose|i: int| 0 <= i < l.len() && #[trigger] l[i].0@ == k].1,
    )
}

/// In a list without repeated names, the entry named `l[j].0` is `l[j]`.
pub proof fn lemma_entry_value(l: Seq<(Vec<u8>, bool)>, j: int)
    requires
        unique_names(l),
        0 <= j < l.len(),
    ensures
        entries_map(l).dom().contains(l[j].0@),
        entries_map(l)[l[j].0@] == l[j].1,
{
    let k = l[j].0@;
    assert(has_name(l, k));
    let c = choose|i: int| 0 <= i < l.len() && #[trigger] l[i].0@ == k;
    if c != j {
        assert(l[c].0@ != l[j].0@);
    }
}

/// The current process's token and its privileges, by name: whether each is
/// enabled.
#[derive(Debug)]
pub struct PrivilegeManager {
    token: Handle,
    privileges: Vec<(Vec<u8>, bool)>,
}

impl PrivilegeManager {
    /// No name is recorded twice.
    pub closed spec fn wf(&self) -> bool {
        unique_names(self.privileges@)
    }

    /// The privileges, by name: whether each is enabled.
    pub closed spec fn privileges(&self) -> Map<Seq<u8>, bool> {
        entries_map(self.privileges@)
    }

    /// The token.
    pub closed spec fn spec_token(&self) -> Handle {
        self.token
    }

    /// A manager for `token`, with no privileges recorded yet.
    pub fn new(token: Handle) -> (r: PrivilegeManager)
        ensures
            r.wf(),
            r.privileges() == Map::<Seq<u8>, bool>::empty(),
            r.spec_token() == token,
    {
        let r = PrivilegeManager { token, privileges: Vec::new() };
        assert(r.privileges() =~= Map::<Seq<u8>, bool>::empty());
        r
    }

    /// The token.
    pub fn token(&self) -> (r: &Handle)
        ensures
            *r == self.spec_token(),
    {
        &self.token
    }

    /// The position of `p` in the list, if it is there.
    fn position(&self, p: &[u8]) -> (r: Option<usize>)
        ensures
            r is Some <==> self.privileges().dom().contains(p@),
            r matches Some(i) ==> i < self.privileges.len() && self.privileges@[i as int].0@ == p@,
    {
        let mut i: usize = 0;
        while i < self.privileges.len()
            invariant
                i <= self.privileges.len(),
                forall|j: int| 0 <= j < i ==> self.privileges@[j].0@ != p@,
            decreases self.privileges.len() - i,
        {
            if bytes_eq(self.privileges[i].0.as_slice(), p) {
                assert(has_name(self.privileges@, p@));
                return Some(i);
            }
            i = i + 1;
        }
        None
    }

    /// Records `name` as enabled or not, replacing what was recorded of it.
    fn record(&mut self, name: Vec<u8>, enabled: bool)
        requires
            old(self).wf(),
        ensures
            final(self).wf(),
            final(self).privileges() == old(self).privileges().insert(name@, enabled),
            final(self).spec_token() == old(self).spec_token(),
    {
        let ghost l0 = self.privileges@;
        let ghost k = name@;
        let ghost m0 = entries_map(l0);
        match self.position(name.as_slice()) {
            Some(i) => {
                self.privileges.set(i, (name, enabled));
                let ghost l1 = self.privileges@;
                assert(unique_names(l1)) by {
                    assert forall|a: int, b: int|
                        0 <= a < l1.len() && 0 <= b < l1.len() && a != b implies #[trigger] l1[a].0@
                        != #[trigger] l1[b].0@ by {
                        assert(l0[a].0@ != l0[b].0@);
                    }
                }
                assert(entries_map(l1) =~= m0.insert(k, enabled)) by {
                    assert forall|k2: Seq<u8>| #[trigger] has_name(l1, k2) <==> has_name(l0, k2) by {
                        if has_name(l1, k2) {
                            let a = choose|a: int| 0 <= a < l1.len() && #[trigger] l1[a].0@ == k2;
                            assert(l0[a].0@ == k2);
                        }
                        if has_name(l0, k2) {
                            let a = choose|a: int| 0 <= a < l0.len() && #[trigger] l0[a].0@ == k2;
                            assert(l1[a].0@ == k2);
                        }
                    }
                    assert forall|k2: Seq<u8>| #[trigger] entries_map(l1).dom().contains(k2) implies
                        entries_map(l1)[k2] == m0.insert(k, enabled)[k2] by {
                        let a = choose|a: int| 0 <= a < l1.len() && #[trigger] l1[a].0@ == k2;
                        lemma_entry_value(l1, a);
                        lemma_entry_value(l0, a);
                    }
                }
            },
            None => {
                self.privileges.push((name, enabled));
                let ghost l1 = self.privileges@;
                let ghost last = l0.len() as int;
                assert(unique_names(l1)) by {
                    assert forall|a: int, b: int|
                        0 <= a < l1.len() && 0 <= b < l1.len() && a != b implies #[trigger] l1[a].0@
                        != #[trigger] l1[b].0@ by {
                        if a < last && b < last {
                            assert(l0[a].0@ != l0[b].0@);
                        } else if a < last {
                            assert(has_name(l0, l0[a].0@));
                        } else {
                            assert(has_name(l0, l0[b].0@));
                        }
                    }
                }
                assert(entries_map(l1) =~= m0.insert(k, enabled)) by {
                    assert forall|k2: Seq<u8>| #[trigger] has_name(l1, k2) <==> (has_name(l0, k2)
                        || k2 == k) by {
                        if has_name(l1, k2) {
                            let a = choose|a: int| 0 <= a < l1.len() && #[trigger] l1[a].0@ == k2;
                            if a < last {
                                assert(l0[a].0@ == k2);
                            }
                        }
                        if has_name(l0, k2) {
                            let a = choose|a: int| 0 <= a < l0.len() && #[trigger] l0[a].0@ == k2;
                            assert(l1[a].0@ == k2);
                        }
                        if k2 == k {
                            assert(l1[last].0@ == k2);
                        }
                    }
                    assert forall|k2: Seq<u8>| #[trigger] entries_map(l1).dom().contains(k2) implies
                        entries_map(l1)[k2] == m0.insert(k, enabled)[k2] by {
                        let a = choose|a: int| 0 <= a < l1.len() && #[trigger] l1[a].0@ == k2;
                        lemma_entry_value(l1, a);
                        if a < last {
                            lemma_entry_value(l0, a);
                        }
                    }
                }
            },
        }
    }

    /// Records the privilege whose name `LookupPrivilegeNameA` wrote into
    /// `buf` and whose attributes are `attributes`; a buffer that is not
    /// exactly a name and its nul is an error, which records nothing.
    pub fn add_from_buffer(&mut self, buf: Vec<u8>, attributes: u32) -> (r: Result<(), Error>)
        requires
            old(self).wf(),
        ensures
            final(self).wf(),
            match name_from_buffer(buf@) {
                Ok(name) => r is Ok && final(self).privileges() == old(self).privileges().insert(
                    name,
                    attributes & SE_PRIVILEGE_ENABLED != 0,
                ),
                Err(_) => (r matches Err(Error::InvalidPrivilegeName { bytes, .. }) && bytes@
                    == buf@) && final(self).privileges() == old(self).privileges(),
            },
            final(self).spec_token() == old(self).spec_token(),
    {
        match privilege_name(buf) {
            Ok(name) => {
                self.record(name, is_enabled(attributes));
                Ok(())
            },
            Err(e) => Err(e),
        }
    }

    /// Whether the privilege `p` is held: recorded, and enabled.
    pub fn is_held(&self, p: &[u8]) -> (r: bool)
        requires
            self.wf(),
        ensures
            r == held(self.privileges(), p@),
    {
        match self.position(p) {
            Some(i) => {
                proof {
                    lemma_entry_value(self.privileges@, i as int);
                }
                self.privileges[i].1
            },
            None => false,
        }
    }

    /// Whether `SeDebugPrivilege` is held.
    pub fn sedebug(&self) -> (r: bool)
        requires
            self.wf(),
        ensures
            r == held(self.privileges(), se_debug_name()),
    {
        let name = se_debug_privilege();
        self.is_held(name.as_slice())
    }

    /// What acquiring `SeDebugPrivilege` takes: nothing when it is held,
    /// otherwise enabling it.
    pub fn set_sedebug(&self) -> (r: SedebugRequest)
        requires
            self.wf(),
        ensures
            sedebug_request(self.privileges()) is None ==> r is Held,
            sedebug_request(self.privileges()) matches Some(name) ==> (r matches SedebugRequest::Enable(
                n,
            ) && n@ == name),
    {
        if self.sedebug() {
            SedebugRequest::Held
        } else {
            SedebugRequest::Enable(se_debug_privilege())
        }
    }

    /// Completes enabling the privilege `p`: `adjusted` is whether
    /// `AdjustTokenPrivileges` succeeded and `last_error` the thread's last
    /// error after it. A failed call is that call's error; a call that did not
    /// assign the privilege is an error too; otherwise `p` is recorded as
    /// enabled. An error changes nothing.
    pub fn enable(&mut self, p: Vec<u8>, adjusted: bool, last_error: u32) -> (r: Result<(), Error>)
        requires
            old(self).wf(),
        ensures
            final(self).wf(),
            !adjusted ==> r == Err::<(), Error>(
                Error::ApiFailed {
                    api: WinApi::AdjustTokenPrivileges,
                    code: win32_to_hresult(last_error),
                },
            ),
            adjusted && last_error == ERROR_NOT_ALL_ASSIGNED ==> r == Err::<(), Error>(
                Error::NotAllAssigned,
            ),
            r is Err ==> final(self).privileges() == old(self).privileges(),
            r is Ok <==> adjusted && last_error != ERROR_NOT_ALL_ASSIGNED,
            r is Ok ==> final(self).privileges() == old(self).privileges().insert(p@, true),
            final(self).spec_token() == old(self).spec_token(),
    {
        if !adjusted {
            return Err(Error::api_failed(WinApi::AdjustTokenPrivileges, last_error));
        }
        if last_error == ERROR_NOT_ALL_ASSIGNED {
            return Err(Error::NotAllAssigned);
        }
        self.record(p, true);
        Ok(())
    }
}

/// A privilege is enabled when its attributes have the
/// `SE_PRIVILEGE_ENABLED` bit (0x2), and enabling fails as not assigned on
/// the last error `ERROR_NOT_ALL_ASSIGNED` (1300).
pub proof fn lemma_privilege_codes(attributes: u32)
    ensures
        (attributes & SE_PRIVILEGE_ENABLED != 0) == (attributes & 0x2u32 != 0),
        ERROR_NOT_ALL_ASSIGNED == 1300,
{
}

/// Once enabling a privilege succeeded, it is held, and every other
/// privilege is as it was.
pub proof fn lemma_enabled_is_held(before: Map<Seq<u8>, bool>, p: Seq<u8>, q: Seq<u8>)
    ensures
        held(before.insert(p, true), p),
        q != p ==> held(before.insert(p, true), q) == held(before, q),
{
}

/// Acquiring `SeDebugPrivilege` asks for nothing more once it has been
/// enabled: after [`PrivilegeManager::enable`] recorded it, the request that
/// [`PrivilegeManager::set_sedebug`] makes is none.
pub proof fn lemma_sedebug_idempotent(before: Map<Seq<u8>, bool>)
    ensures
        sedebug_request(before.insert(se_debug_name(), true)) is None,
{
}

} // verus!
