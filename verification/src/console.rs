//! How progress is written to the console.
use vstd::prelude::*;

verus! {

/// `ENABLE_VIRTUAL_TERMINAL_PROCESSING`.
pub const ENABLE_VIRTUAL_TERMINAL_PROCESSING: u32 = 0x4;

/// The console mode with virtual-terminal processing turned on and every
/// other flag kept.
pub fn virtual_terminal_mode(mode: u32) -> (r: u32)
    ensures
        r == mode | ENABLE_VIRTUAL_TERMINAL_PROCESSING,
{
    mode | ENABLE_VIRTUAL_TERMINAL_PROCESSING
}

/// What a progress line starts and ends with. With virtual-terminal
/// processing the line clears the current one (`ESC[2K`) and goes back to its
/// start, so that each update replaces the last; without it, each update is
/// a line of its own.
pub fn progress_line_style(vt_on: bool) -> (r: (&'static str, &'static str))
    ensures
        vt_on ==> r.0@ == "\x1b[2K\r"@ && r.1@ == ""@,
        !vt_on ==> r.0@ == ""@ && r.1@ == "\n"@,
{
    if vt_on {
        ("\x1b[2K\r", "")
    } else {
        ("", "\n")
    }
}

} // verus!
