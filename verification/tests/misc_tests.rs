use lockmem::console::{progress_line_style, virtual_terminal_mode};
use lockmem::error::{Error, Recovery, E_ACCESSDENIED, ERROR_ACCESS_DENIED};
use lockmem::human::{HumanBytes, SizeUnit, ToHuman};
use lockmem::target::{parse_pid, parse_target, Target};
use lockmem::text::{utf16_lossy, utf16_strict};

#[test]
fn access_denied_is_retried_with_the_debug_privilege() {
    let e = Error::from_win32(ERROR_ACCESS_DENIED);
    assert!(matches!(e, Error::Win32 { code } if code == E_ACCESSDENIED));
    assert_eq!(E_ACCESSDENIED as u32, 0x80070005);
    assert!(e.is_access_denied());
    assert_eq!(e.recovery(), Recovery::RetryWithDebugPrivilege);
}

#[test]
fn win32_codes_map_to_hresults() {
    assert!(matches!(Error::from_win32(0), Error::Win32 { code: 0 }));
    assert!(matches!(Error::from_win32(2), Error::Win32 { code } if code as u32 == 0x80070002));
    // Codes that already read as negative are kept.
    assert!(matches!(Error::from_win32(0x8007000E), Error::Win32 { code } if code as u32 == 0x8007000E));
}

#[test]
fn other_errors_give_up_or_abort() {
    assert_eq!(Error::from_win32(2).recovery(), Recovery::GiveUp);
    assert_eq!(Error::NoProcessFound.recovery(), Recovery::Abort);
    assert!(!Error::NoProcessFound.is_win32());
    assert!(!Error::ApiFailed { api: lockmem::error::WinApi::OpenProcess, code: E_ACCESSDENIED }
        .is_access_denied());
}

#[test]
fn units_of_byte_counts() {
    let unit = |n: u64| HumanBytes(Some(n)).unit().unwrap();
    assert_eq!(unit(0), SizeUnit::B);
    assert_eq!(unit(1023), SizeUnit::B);
    assert_eq!(unit(1024), SizeUnit::Kb);
    assert_eq!(unit(1048575), SizeUnit::Kb);
    assert_eq!(unit(1048576), SizeUnit::Mb);
    assert_eq!(unit(1073741823), SizeUnit::Mb);
    assert_eq!(unit(1073741824), SizeUnit::Gb);
    assert_eq!(unit(u64::MAX), SizeUnit::Gb);
    assert_eq!(SizeUnit::Mb.divisor(), 1 << 20);
    assert_eq!(SizeUnit::Gb.suffix(), "gb");
    assert_eq!(SizeUnit::B.suffix(), "b");
    assert_eq!(5000u64.human_bytes().value(), Some(5000));
    assert_eq!(7usize.human_bytes(), HumanBytes(Some(7)));
}

#[test]
fn counts_of_any_integer_type_are_shown_by_value() {
    assert_eq!(7u32.human_bytes(), 7u64.human_bytes());
    assert_eq!(7u8.human_bytes(), 7u64.human_bytes());
    assert_eq!(7u16.human_bytes(), 7u64.human_bytes());
    assert_eq!(7i32.human_bytes(), 7u64.human_bytes());
    assert_eq!(7i64.human_bytes(), 7u64.human_bytes());
    assert_eq!(7isize.human_bytes(), 7u64.human_bytes());
    assert_eq!(u64::MAX.human_bytes(), (u64::MAX as u128).human_bytes());
    assert_eq!(u64::MAX.human_bytes(), (u64::MAX as i128).human_bytes());
    assert_eq!(5_000_000u32.human_bytes().unit(), Some(SizeUnit::Mb));
}

#[test]
fn counts_without_a_u64_form_cannot_be_shown() {
    assert_eq!((-1i32).human_bytes(), HumanBytes(None));
    assert_eq!((-1i8).human_bytes().unit(), None);
    assert_eq!((-5i128).human_bytes().value(), None);
    assert_eq!((u64::MAX as u128 + 1).human_bytes(), HumanBytes(None));
    assert_eq!((1i128 << 64).human_bytes(), HumanBytes(None));
}

#[test]
fn human_bytes_scaled_value() {
    let h = 1536u64.human_bytes();
    let unit = h.unit().unwrap();
    let shown = h.value().unwrap() as f64 / unit.divisor() as f64;
    assert_eq!(format!("{shown:.1}{}", unit.suffix()), "1.5kb");
}

#[test]
fn virtual_terminal_flag_is_added() {
    assert_eq!(virtual_terminal_mode(0x3), 0x7);
    assert_eq!(virtual_terminal_mode(0x4), 0x4);
}

#[test]
fn progress_line_styles() {
    assert_eq!(progress_line_style(true), ("\x1b[2K\r", ""));
    assert_eq!(progress_line_style(false), ("", "\n"));
}

#[test]
fn pids_are_parsed_as_u32() {
    assert_eq!(parse_pid("1234"), Some(1234));
    assert_eq!(parse_pid("+77"), Some(77));
    assert_eq!(parse_pid("0004"), Some(4));
    assert_eq!(parse_pid("4294967295"), Some(u32::MAX));
    assert_eq!(parse_pid("4294967296"), None);
    assert_eq!(parse_pid("99999999999x"), None);
    assert_eq!(parse_pid(""), None);
    assert_eq!(parse_pid("+"), None);
    assert_eq!(parse_pid("-1"), None);
    assert_eq!(parse_pid("12 "), None);
    assert_eq!(parse_pid("notepad.exe"), None);
    for s in ["0", "+0", "65536", "++1", "1+1", "٣"] {
        assert_eq!(parse_pid(s), s.parse::<u32>().ok(), "{s}");
    }
}

#[test]
fn target_is_a_pid_or_a_name() {
    assert_eq!(parse_target("4"), Target::Pid(4));
    assert_eq!(parse_target("notepad.exe"), Target::Name);
}

#[test]
fn utf16_decoding() {
    let units: Vec<u16> = "a\u{1F600}b".encode_utf16().collect();
    assert_eq!(utf16_lossy(&units), vec!['a', '\u{1F600}', 'b']);
    assert_eq!(utf16_strict(&units), Some(vec!['a', '\u{1F600}', 'b']));
    let bad = vec!['a' as u16, 0xD83D, 'b' as u16, 0xDE00];
    assert_eq!(utf16_lossy(&bad), vec!['a', '\u{FFFD}', 'b', '\u{FFFD}']);
    assert_eq!(utf16_lossy(&bad), String::from_utf16_lossy(&bad).chars().collect::<Vec<_>>());
    assert_eq!(utf16_strict(&bad), None);
}
