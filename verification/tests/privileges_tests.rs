use lockmem::error::{Error, WinApi};
use lockmem::handle::Handle;
use lockmem::privileges::{
    check_token_size, is_enabled, name_capacity, privilege_name, se_debug_privilege,
    PrivilegeManager, SedebugRequest, ERROR_NOT_ALL_ASSIGNED,
};

fn buffer(name: &str) -> Vec<u8> {
    let mut b = name.as_bytes().to_vec();
    b.push(0);
    b
}

#[test]
fn debug_privilege_name() {
    assert_eq!(se_debug_privilege(), b"SeDebugPrivilege".to_vec());
}

#[test]
fn name_buffer_must_end_with_its_only_nul() {
    assert_eq!(privilege_name(buffer("SeShutdownPrivilege")).unwrap(), b"SeShutdownPrivilege".to_vec());
    match privilege_name(b"Se\0x\0".to_vec()) {
        Err(Error::InvalidPrivilegeName { bytes, interior_nul }) => {
            assert_eq!(bytes, b"Se\0x\0".to_vec());
            assert_eq!(interior_nul, Some(2));
        }
        other => panic!("unexpected {other:?}"),
    }
    match privilege_name(b"Se".to_vec()) {
        Err(Error::InvalidPrivilegeName { interior_nul, .. }) => assert_eq!(interior_nul, None),
        other => panic!("unexpected {other:?}"),
    }
    assert_eq!(privilege_name(vec![0]).unwrap(), Vec::<u8>::new());
}

#[test]
fn name_capacity_is_clamped() {
    assert_eq!(name_capacity(0), 1);
    assert_eq!(name_capacity(1), 1);
    assert_eq!(name_capacity(17), 17);
    assert_eq!(name_capacity(64), 64);
    assert_eq!(name_capacity(65), 64);
    assert_eq!(name_capacity(u32::MAX), 64);
}

#[test]
fn token_sizes_must_agree() {
    assert!(check_token_size(40, 40).is_ok());
    assert!(matches!(check_token_size(40, 28), Err(Error::TokenSizeChanged)));
}

#[test]
fn enabled_attribute_bit() {
    assert!(is_enabled(2));
    assert!(is_enabled(3));
    assert!(!is_enabled(1));
    assert!(!is_enabled(0));
}

#[test]
fn recorded_privileges_are_held_when_enabled() {
    let mut m = PrivilegeManager::new(Handle::adopt(60));
    assert_eq!(m.token().raw(), 60);
    m.add_from_buffer(buffer("SeShutdownPrivilege"), 0).unwrap();
    m.add_from_buffer(buffer("SeChangeNotifyPrivilege"), 3).unwrap();
    assert!(!m.is_held(b"SeShutdownPrivilege"));
    assert!(m.is_held(b"SeChangeNotifyPrivilege"));
    assert!(!m.is_held(b"SeDebugPrivilege"));
    assert!(!m.sedebug());
    // A later entry with the same name replaces the earlier one.
    m.add_from_buffer(buffer("SeShutdownPrivilege"), 2).unwrap();
    assert!(m.is_held(b"SeShutdownPrivilege"));
    assert!(m.add_from_buffer(b"bad".to_vec(), 2).is_err());
}

#[test]
fn enabling_sedebug() {
    let mut m = PrivilegeManager::new(Handle::adopt(60));
    m.add_from_buffer(buffer("SeDebugPrivilege"), 0).unwrap();
    let name = match m.set_sedebug() {
        SedebugRequest::Enable(name) => name,
        SedebugRequest::Held => panic!("not held yet"),
    };
    assert_eq!(name, b"SeDebugPrivilege".to_vec());
    m.enable(name, true, 0).unwrap();
    assert!(m.sedebug());
    assert!(matches!(m.set_sedebug(), SedebugRequest::Held));
}

#[test]
fn enabling_can_fail() {
    let mut m = PrivilegeManager::new(Handle::adopt(60));
    match m.enable(se_debug_privilege(), false, 5) {
        Err(Error::ApiFailed { api, code }) => {
            assert_eq!(api, WinApi::AdjustTokenPrivileges);
            assert_eq!(code as u32, 0x80070005);
        }
        other => panic!("unexpected {other:?}"),
    }
    assert!(matches!(
        m.enable(se_debug_privilege(), true, ERROR_NOT_ALL_ASSIGNED),
        Err(Error::NotAllAssigned)
    ));
    assert!(!m.sedebug());
}
