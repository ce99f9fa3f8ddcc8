//! Locking every committed page of a process in memory: the decisions.
//!
//! The program around this library makes the operating-system calls (opening
//! the process, walking its address space and the process snapshot, locking
//! ranges, adjusting the working set and the token's privileges). This
//! library decides what to call, reads what came back and says what follows,
//! under contracts:
//!
//! - [`target`]: whether the command line names a pid or a process name;
//! - [`process`]: finding a process by name in the snapshot, the snapshot
//!   walk, the address-space walk, and the opened process;
//! - [`walk`]: the walk over a process's address space that locks it,
//!   region by region, and counts what it locked;
//! - [`lock`]: which regions are locked, the running total, and the
//!   conversation that locks one range, growing the working set if needed;
//! - [`privileges`]: the token's privileges and enabling `SeDebugPrivilege`;
//! - [`handle`]: kernel handles, their ownership and validity;
//! - [`text`]: the UTF-16 text the kernel reports;
//! - [`path`]: the file-name part of a Windows path;
//! - [`human`], [`console`]: how progress is shown;
//! - [`error`]: what can go wrong, and what is retried.
use vstd::prelude::*;

pub mod error;
pub mod lock;
pub mod handle;
pub mod text;
pub mod process;
pub mod privileges;
pub mod human;
pub mod console;
pub mod target;
pub mod walk;
pub mod path;

verus! {

} // verus!
