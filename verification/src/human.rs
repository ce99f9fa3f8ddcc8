//! Byte counts for people: the unit a count is shown in.
use vstd::prelude::*;

verus! {

/// A kibibyte.
pub const KB: u64 = 1024;
/// A mebibyte.
pub const MB: u64 = 1048576;
/// A gibibyte.
pub const GB: u64 = 1073741824;

/// The unit a byte count is shown in.
#[derive(Debug, Clone, Copy, PartialEq, Eq, Structural)]
pub enum SizeUnit {
    B,
    Kb,
    Mb,
    Gb,
}

/// The largest unit that is not more than `size`, bytes below a kibibyte.
pub open spec fn unit_for(size: u64) -> SizeUnit {
    if size >= GB {
        SizeUnit::Gb
    } else if size >= MB {
        SizeUnit::Mb
    } else if size >= KB {
        SizeUnit::Kb
    } else {
        SizeUnit::B
    }
}

pub open spec fn unit_divisor(unit: SizeUnit) -> u64 {
    match unit {
        SizeUnit::B => 1,
        SizeUnit::Kb => KB,
        SizeUnit::Mb => MB,
        SizeUnit::Gb => GB,
    }
}

impl SizeUnit {
    /// How many bytes one of this unit is.
    pub fn divisor(&self) -> (r: u64)
        ensures
            r == unit_divisor(*self),
    {
        match self {
            SizeUnit::B => 1,
            SizeUnit::Kb => KB,
            SizeUnit::Mb => MB,
            SizeUnit::Gb => GB,
        }
    }

    /// The unit's suffix: `b`, `kb`, `mb` or `gb`.
    pub fn suffix(&self) -> (r: &'static str)
        ensures
            r@ == (match *self {
                SizeUnit::B => "b"@,
                SizeUnit::Kb => "kb"@,
                SizeUnit::Mb => "mb"@,
                SizeUnit::Gb => "gb"@,
            }),
    {
        match self {
            SizeUnit::B => "b",
            SizeUnit::Kb => "kb",
            SizeUnit::Mb => "mb",
            SizeUnit::Gb => "gb",
        }
    }
}

/// A byte count, to be shown with one decimal in the largest unit that is
/// not more than it (gigabytes at most); `None` is a count that has no `u64`
/// form, which cannot be shown.
#[derive(Debug, Clone, Copy, PartialEq, Eq)]
pub struct HumanBytes(pub Option<u64>);

impl HumanBytes {
    /// The byte count, if it has a `u64` form.
    pub fn value(&self) -> (r: Option<u64>)
        ensures
            r == self.0,
    {
        self.0
    }

    /// The unit the count is shown in; nothing for a count that cannot be
    /// shown. A count is compared with the units as a float would be: every
    /// count below 2^53 converts exactly, and larger counts are above every
    /// threshold either way.
    pub fn unit(&self) -> (r: Option<SizeUnit>)
        ensures
            r == (match self.0 {
                Some(n) => Some(unit_for(n)),
                None => None::<SizeUnit>,
            }),
    {
        match self.0 {
            Some(n) => Some(if n >= GB {
                SizeUnit::Gb
            } else if n >= MB {
                SizeUnit::Mb
            } else if n >= KB {
                SizeUnit::Kb
            } else {
                SizeUnit::B
            }),
            None => None,
        }
    }
}

/// The `u64` form of the integer `n`, if it has one.
pub open spec fn u64_form(n: int) -> Option<u64> {
    if 0 <= n <= u64::MAX {
        Some(n as u64)
    } else {
        None
    }
}

/// Counts of bytes that can be shown for people: any integer, by its value
/// alone, whatever its type.
pub trait ToHuman: Sized {
    /// The number of bytes.
    spec fn byte_count(&self) -> int;

    fn human_bytes(&self) -> (r: HumanBytes)
        ensures
            r.0 == u64_form(self.byte_count()),
    ;
}

impl ToHuman for u8 {
    open spec fn byte_count(&self) -> int {
        *self as int
    }

    fn human_bytes(&self) -> (r: HumanBytes) {
        HumanBytes(Some(*self as u64))
    }
}

impl ToHuman for u16 {
    open spec fn byte_count(&self) -> int {
        *self as int
    }

    fn human_bytes(&self) -> (r: HumanBytes) {
        HumanBytes(Some(*self as u64))
    }
}

impl ToHuman for u32 {
    open spec fn byte_count(&self) -> int {
        *self as int
    }

    fn human_bytes(&self) -> (r: HumanBytes) {
        HumanBytes(Some(*self as u64))
    }
}

impl ToHuman for u64 {
    open spec fn byte_count(&self) -> int {
        *self as int
    }

    fn human_bytes(&self) -> (r: HumanBytes) {
        HumanBytes(Some(*self as u64))
    }
}

impl ToHuman for usize {
    open spec fn byte_count(&self) -> int {
        *self as int
    }

    fn human_bytes(&self) -> (r: HumanBytes) {
        HumanBytes(Some(*self as u64))
    }
}

impl ToHuman for u128 {
    open spec fn byte_count(&self) -> int {
        *self as int
    }

    fn human_bytes(&self) -> (r: HumanBytes) {
        if *self <= 0xFFFF_FFFF_FFFF_FFFFu128 {
            HumanBytes(Some(*self as u64))
        } else {
            HumanBytes(None)
        }
    }
}

impl ToHuman for i8 {
    open spec fn byte_count(&self) -> int {
        *self as int
    }

    fn human_bytes(&self) -> (r: HumanBytes) {
        if *self >= 0 {
            HumanBytes(Some(*self as u64))
        } else {
            HumanBytes(None)
        }
    }
}

impl ToHuman for i16 {
    open spec fn byte_count(&self) -> int {
        *self as int
    }

    fn human_bytes(&self) -> (r: HumanBytes) {
        if *self >= 0 {
            HumanBytes(Some(*self as u64))
        } else {
            HumanBytes(None)
        }
    }
}

impl ToHuman for i32 {
    open spec fn byte_count(&self) -> int {
        *self as int
    }

    fn human_bytes(&self) -> (r: HumanBytes) {
        if *self >= 0 {
            HumanBytes(Some(*self as u64))
        } else {
            HumanBytes(None)
        }
    }
}

impl ToHuman for i64 {
    open spec fn byte_count(&self) -> int {
        *self as int
    }

    fn human_bytes(&self) -> (r: HumanBytes) {
        if *self >= 0 {
            HumanBytes(Some(*self as u64))
        } else {
            HumanBytes(None)
        }
    }
}

impl ToHuman for isize {
    open spec fn byte_count(&self) -> int {
        *self as int
    }

    fn human_bytes(&self) -> (r: HumanBytes) {
        if *self >= 0 {
            HumanBytes(Some(*self as u64))
        } else {
            HumanBytes(None)
        }
    }
}

impl ToHuman for i128 {
    open spec fn byte_count(&self) -> int {
        *self as int
    }

    fn human_bytes(&self) -> (r: HumanBytes) {
        if 0 <= *self && *self <= 0xFFFF_FFFF_FFFF_FFFFi128 {
            HumanBytes(Some(*self as u64))
        } else {
            HumanBytes(None)
        }
    }
}

/// The unit a count is shown in is not more than the count (bytes aside),
/// and the count is less than 1024 of it (gigabytes aside): the shown number
/// is at least 1 and below 1024.
pub proof fn lemma_unit_in_range(size: u64)
    ensures
        unit_for(size) != SizeUnit::B ==> unit_divisor(unit_for(size)) <= size,
        unit_for(size) != SizeUnit::Gb ==> size < 1024 * unit_divisor(unit_for(size)),
        1 <= unit_divisor(unit_for(size)),
        size >= 1 ==> 1 <= size / unit_divisor(unit_for(size)),
        unit_for(size) != SizeUnit::Gb ==> size / unit_divisor(unit_for(size)) < 1024,
{
    let d = unit_divisor(unit_for(size));
    lemma_units_base_1024();
    if size >= 1 {
        assert(1 <= size / d) by (nonlinear_arith)
            requires
                1 <= d,
                d <= size || d == 1,
                size >= 1,
        ;
    }
    if unit_for(size) != SizeUnit::Gb {
        assert(size / d < 1024) by (nonlinear_arith)
            requires
                1 <= d,
                size < 1024 * d,
        ;
    }
}

/// The units go up by 1024: a byte is 1, a kilobyte 1024 bytes, a megabyte
/// 1024 kilobytes and a gigabyte 1024 megabytes.
pub proof fn lemma_units_base_1024()
    ensures
        unit_divisor(SizeUnit::B) == 1,
        unit_divisor(SizeUnit::Kb) == 1024 * unit_divisor(SizeUnit::B),
        unit_divisor(SizeUnit::Mb) == 1024 * unit_divisor(SizeUnit::Kb),
        unit_divisor(SizeUnit::Gb) == 1024 * unit_divisor(SizeUnit::Mb),
        unit_divisor(SizeUnit::Gb) == 1073741824,
{
}

/// Which unit a count is shown in, by its size: gigabytes from 1024^3 bytes,
/// megabytes from 1024^2, kilobytes from 1024, bytes below.
pub proof fn lemma_unit_thresholds(size: u64)
    ensures
        (unit_for(size) == SizeUnit::Gb) <==> size >= 1073741824,
        (unit_for(size) == SizeUnit::Mb) <==> 1048576 <= size < 1073741824,
        (unit_for(size) == SizeUnit::Kb) <==> 1024 <= size < 1048576,
        (unit_for(size) == SizeUnit::B) <==> size < 1024,
{
}

} // verus!
