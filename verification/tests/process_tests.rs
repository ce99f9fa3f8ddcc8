use lockmem::error::{Error, WinApi};
use lockmem::handle::{Handle, ProcessHandle};
use lockmem::lock::MemoryRegion;
use lockmem::process::{
    image_path, Process, ProcessEntry, Processes, ProcessesIter, SearchStep, SnapshotCall, SnapshotStep,
    VirtMemIterator, ERROR_NO_MORE_FILES,
};

fn exe(name: &str) -> Vec<u16> {
    let mut units: Vec<u16> = name.encode_utf16().collect();
    units.resize(260, 0);
    units
}

fn entry(pid: u32, name: &str) -> ProcessEntry {
    ProcessEntry { pid, exe_file: exe(name) }
}

fn process_handle(raw: isize) -> ProcessHandle {
    let units: Vec<u16> = "Process".encode_utf16().collect();
    ProcessHandle::from_handle(Handle::adopt(raw), 0, &units).unwrap()
}

#[test]
fn entry_name_matches_ignoring_ascii_case() {
    let e = entry(4, "Notepad.EXE");
    assert!(e.matches("notepad.exe"));
    assert!(e.matches("NOTEPAD.exe"));
    assert!(!e.matches("notepad"));
    assert!(!e.matches("notepad.exe "));
}

#[test]
fn entry_name_stops_at_the_first_nul() {
    let mut units = exe("a.exe");
    units[6] = 'x' as u16;
    let e = ProcessEntry { pid: 1, exe_file: units };
    assert!(e.matches("A.EXE"));
}

#[test]
fn non_ascii_letters_are_compared_exactly() {
    let e = entry(9, "Émile.exe");
    assert!(e.matches("Émile.EXE"));
    assert!(!e.matches("émile.exe"));
}

#[test]
fn unpaired_surrogates_read_as_replacement_character() {
    let mut units = vec![0xD800u16, 'a' as u16];
    units.resize(260, 0);
    let e = ProcessEntry { pid: 2, exe_file: units };
    assert!(e.matches("\u{FFFD}a"));
    assert!(!e.matches("a"));
}

#[test]
fn surrogate_pairs_read_as_one_character() {
    let e = entry(3, "\u{1F600}.exe");
    assert!(e.matches("\u{1F600}.EXE"));
}

#[test]
fn from_name_finds_the_first_match() {
    let entries = vec![Ok(entry(4, "System")), Ok(entry(10, "app.exe")), Ok(entry(11, "APP.EXE"))];
    assert!(Process::from_name_defined("app.exe", &entries));
    assert_eq!(Process::from_name("app.exe", entries).unwrap(), Some(10));
}

#[test]
fn from_name_finds_nothing() {
    let entries = vec![Ok(entry(4, "System")), Ok(entry(10, "app.exe"))];
    assert_eq!(Process::from_name("other.exe", entries).unwrap(), None);
    assert_eq!(Process::from_name("x", Vec::new()).unwrap(), None);
}

#[test]
fn from_name_stops_at_an_error_before_a_match() {
    let entries = vec![
        Ok(entry(4, "System")),
        Err(Error::ApiFailed { api: WinApi::Process32NextW, code: 1 }),
        Ok(entry(10, "app.exe")),
    ];
    match Process::from_name("app.exe", entries) {
        Err(Error::ApiFailed { api, code }) => {
            assert_eq!(api, WinApi::Process32NextW);
            assert_eq!(code, 1);
        }
        other => panic!("unexpected {other:?}"),
    }
    let entries = vec![Ok(entry(10, "app.exe")), Err(Error::Win32 { code: 1 })];
    assert_eq!(Process::from_name("app.exe", entries).unwrap(), Some(10));
}

#[test]
fn search_needs_a_nul_only_in_entries_it_reads() {
    let no_nul = ProcessEntry { pid: 1, exe_file: vec![b'a' as u16; 260] };
    let entries = vec![Ok(entry(10, "app.exe")), Ok(no_nul)];
    assert!(Process::from_name_defined("app.exe", &entries));
    assert!(!Process::from_name_defined("other.exe", &entries));
}

#[test]
fn snapshot_walk_calls_first_then_next() {
    let mut it = Processes::iter(Handle::adopt(40), 0).unwrap();
    assert_eq!(it.snapshot().raw(), 40);
    assert_eq!(it.next_call(), SnapshotCall::First);
    assert_eq!(it.next_call(), SnapshotCall::Next);
    assert_eq!(it.next_call(), SnapshotCall::Next);
}

#[test]
fn invalid_snapshot_is_the_last_win32_error() {
    match Processes::iter(Handle::adopt(-1), 5) {
        Err(e) => assert!(e.is_access_denied()),
        Ok(_) => panic!("an invalid snapshot was accepted"),
    }
}

#[test]
fn snapshot_steps() {
    assert!(matches!(ProcessesIter::step(SnapshotCall::First, true, 0), SnapshotStep::Entry));
    assert!(matches!(ProcessesIter::step(SnapshotCall::Next, true, 99), SnapshotStep::Entry));
    assert!(matches!(
        ProcessesIter::step(SnapshotCall::Next, false, ERROR_NO_MORE_FILES),
        SnapshotStep::End
    ));
    // The first call failing is an error even with ERROR_NO_MORE_FILES.
    match ProcessesIter::step(SnapshotCall::First, false, ERROR_NO_MORE_FILES) {
        SnapshotStep::Failed(Error::ApiFailed { api, code }) => {
            assert_eq!(api, WinApi::Process32FirstW);
            assert_eq!(code as u32, 0x80070012);
        }
        other => panic!("unexpected {other:?}"),
    }
    match ProcessesIter::step(SnapshotCall::Next, false, 6) {
        SnapshotStep::Failed(Error::ApiFailed { api, code }) => {
            assert_eq!(api, WinApi::Process32NextW);
            assert_eq!(code as u32, 0x80070006);
        }
        other => panic!("unexpected {other:?}"),
    }
}

#[test]
fn address_walk_moves_to_the_end_of_each_region() {
    let mut it = VirtMemIterator::new(process_handle(8), 0x10000, 0x30000);
    assert_eq!(it.handle().raw(), 8);
    assert_eq!(it.next_address(), Some(0x10000));
    let r = MemoryRegion { base: 0x10000, size: 0x8000, state: 0x1000, protect: 4 };
    assert_eq!(it.on_query(48, r, 0).unwrap(), r);
    assert_eq!(it.next_address(), Some(0x18000));
    let r = MemoryRegion { base: 0x18000, size: 0x18000, state: 0x10000, protect: 1 };
    it.on_query(48, r, 0).unwrap();
    assert_eq!(it.next_address(), None);
}

#[test]
fn failed_query_leaves_the_walk_in_place() {
    let mut it = VirtMemIterator::new(process_handle(8), 0x10000, 0x30000);
    let r = MemoryRegion { base: 0, size: 0, state: 0, protect: 0 };
    match it.on_query(0, r, 5) {
        Err(Error::ApiFailed { api, .. }) => assert_eq!(api, WinApi::VirtualQueryEx),
        other => panic!("unexpected {other:?}"),
    }
    assert_eq!(it.next_address(), Some(0x10000));
}

#[test]
fn image_path_is_lowercased() {
    let mut buffer: Vec<u16> = "C:\\Windows\\NOTEPAD.EXE".encode_utf16().collect();
    let len = buffer.len() as u32;
    buffer.resize(260, 0);
    assert_eq!(image_path(&buffer, len).unwrap(), "c:\\windows\\notepad.exe");
    assert_eq!(image_path(&buffer, 2).unwrap(), "c:");
}

#[test]
fn image_path_must_be_valid_utf16() {
    let buffer = vec!['a' as u16, 0xDC00, 'b' as u16];
    assert!(matches!(image_path(&buffer, 3), Err(Error::InvalidUtf16)));
    assert_eq!(image_path(&buffer, 1).unwrap(), "a");
}

#[test]
fn opened_handle_must_be_valid() {
    match Process::opened_handle(Handle::adopt(0), 87) {
        Err(Error::ApiFailed { api, code }) => {
            assert_eq!(api, WinApi::OpenProcess);
            assert_eq!(code as u32, 0x80070057);
        }
        other => panic!("unexpected {other:?}"),
    }
    assert_eq!(Process::opened_handle(Handle::adopt(12), 0).unwrap().raw(), 12);
}

#[test]
fn process_is_named_by_its_image_file() {
    let p = Process::from_handle(process_handle(16), 1234, Ok("c:\\windows\\notepad.exe".to_string()))
        .unwrap();
    assert_eq!(p.pid(), 1234);
    assert_eq!(p.name(), "notepad.exe");
    assert_eq!(p.handle().raw(), 16);
}

#[test]
fn process_image_path_failure_is_passed_on() {
    let r = Process::from_handle(process_handle(16), 1234, Err(Error::Win32 { code: 31 }));
    assert!(matches!(r, Err(Error::Win32 { code: 31 })));
}

#[test]
fn process_name_from_the_lowercased_path() {
    let mut buffer: Vec<u16> = "C:\\Windows\\System32\\NOTEPAD.EXE".encode_utf16().collect();
    let len = buffer.len() as u32;
    buffer.resize(260, 0);
    let p = Process::from_handle(process_handle(16), 4, image_path(&buffer, len)).unwrap();
    assert_eq!(p.name(), "notepad.exe");
}

#[test]
fn search_step_stops_at_a_match_or_an_error() {
    assert!(matches!(Process::search_step("app.exe", Ok(entry(10, "APP.exe"))), SearchStep::Found(10)));
    assert!(matches!(Process::search_step("app.exe", Ok(entry(4, "System"))), SearchStep::Next));
    assert!(matches!(
        Process::search_step("app.exe", Err(Error::Win32 { code: 3 })),
        SearchStep::Failed(Error::Win32 { code: 3 })
    ));
}

#[test]
fn has_nul_checks_the_name_buffer() {
    assert!(entry(1, "a.exe").has_nul());
    assert!(!ProcessEntry { pid: 1, exe_file: vec![b'a' as u16; 260] }.has_nul());
}

#[test]
fn found_or_no_process() {
    assert_eq!(Process::found(Some(3)).unwrap(), 3);
    assert!(matches!(Process::found::<u32>(None), Err(Error::NoProcessFound)));
}
