//! UTF-16 text as the kernel reports it, and the comparisons made on it.
use vstd::prelude::*;

verus! {

/// Whether `a` and `b` hold the same units.
pub fn units_eq(a: &[u16], b: &[u16]) -> (r: bool)
    ensures
        r == (a@ == b@),
{
    if a.len() != b.len() {
        return false;
    }
    let mut i: usize = 0;
    while i < a.len()
        invariant
            i <= a.len(),
            a.len() == b.len(),
            forall|j: int| 0 <= j < i ==> a@[j] == b@[j],
        decreases a.len() - i,
    {
        if a[i] != b[i] {
            return false;
        }
        i = i + 1;
    }
    assert(a@ =~= b@);
    true
}

/// Whether `s` holds a nul unit.
pub open spec fn has_nul(s: Seq<u16>) -> bool {
    exists|j: int| 0 <= j < s.len() && s[j] == 0
}

/// Whether `n` is the position of the first nul unit of `s`.
pub open spec fn is_first_nul(s: Seq<u16>, n: int) -> bool {
    &&& 0 <= n < s.len()
    &&& s[n] == 0
    &&& forall|j: int| 0 <= j < n ==> s[j] != 0
}

/// The position of the first nul unit of `s` (meaningful where `has_nul(s)`).
pub open spec fn first_nul_index(s: Seq<u16>) -> int {
    choose|n: int| is_first_nul(s, n)
}

/// The units of `s` before its first nul.
pub open spec fn before_nul(s: Seq<u16>) -> Seq<u16> {
    s.take(first_nul_index(s))
}

/// There is one first nul.
pub proof fn lemma_first_nul_unique(s: Seq<u16>, n: int)
    requires
        is_first_nul(s, n),
    ensures
        has_nul(s),
        first_nul_index(s) == n,
{
    let m = first_nul_index(s);
    assert(is_first_nul(s, m));
    if m < n {
        assert(s[m] != 0);
    }
    if n < m {
        assert(s[n] != 0);
    }
}

/// The position of the first nul unit of `units`, if any.
pub fn first_nul(units: &[u16]) -> (r: Option<usize>)
    ensures
        r is Some <==> has_nul(units@),
        r matches Some(n) ==> n == first_nul_index(units@) && is_first_nul(units@, n as int),
{
    let mut i: usize = 0;
    while i < units.len()
        invariant
            i <= units.len(),
            forall|j: int| 0 <= j < i ==> units@[j] != 0,
        decreases units.len() - i,
    {
        if units[i] == 0 {
            proof {
                lemma_first_nul_unique(units@, i as int);
            }
            return Some(i);
        }
        i = i + 1;
    }
    None
}

/// The replacement character U+FFFD.
pub const REPLACEMENT_CHARACTER: char = '\u{FFFD}';

pub open spec fn is_high_surrogate(u: u16) -> bool {
    0xD800 <= u <= 0xDBFF
}

pub open spec fn is_low_surrogate(u: u16) -> bool {
    0xDC00 <= u <= 0xDFFF
}

/// The code point that the surrogate pair `hi`, `lo` encodes.
pub open spec fn pair_code_point(hi: u16, lo: u16) -> u32 {
    (0x10000 + (hi - 0xD800) * 0x400 + (lo - 0xDC00)) as u32
}

/// What `String::from_utf16_lossy` makes of `units`: surrogate pairs become
/// the code point they encode, unpaired surrogates become U+FFFD, and every
/// other unit is the character of that code point.
pub open spec fn decode_utf16_lossy(units: Seq<u16>) -> Seq<char>
    decreases units.len(),
{
    if units.len() == 0 {
        Seq::empty()
    } else if units.len() >= 2 && is_high_surrogate(units[0]) && is_low_surrogate(units[1]) {
        seq![pair_code_point(units[0], units[1]) as char] + decode_utf16_lossy(units.skip(2))
    } else if is_high_surrogate(units[0]) || is_low_surrogate(units[0]) {
        seq![REPLACEMENT_CHARACTER] + decode_utf16_lossy(units.skip(1))
    } else {
        seq![units[0] as char] + decode_utf16_lossy(units.skip(1))
    }
}

/// Whether `v` is a Unicode scalar value, that is, the code of a `char`.
pub open spec fn is_scalar_value(v: u32) -> bool {
    v <= 0x10FFFF && !(0xD800 <= v <= 0xDFFF)
}

/// `char::from_u32`: the character with code `v`, where `v` is a scalar
/// value, as its documentation states.
#[verifier::external_body]
fn char_from_u32(v: u32) -> (r: Option<char>)
    ensures
        r == (if is_scalar_value(v) { Some(v as char) } else { None::<char> }),
{
    char::from_u32(v)
}

/// The text of `units`, decoded as `String::from_utf16_lossy` does.
pub fn utf16_lossy(units: &[u16]) -> (r: Vec<char>)
    ensures
        r@ == decode_utf16_lossy(units@),
{
    let mut out: Vec<char> = Vec::new();
    let mut i: usize = 0;
    assert(units@.skip(0) =~= units@);
    while i < units.len()
        invariant
            i <= units.len(),
            decode_utf16_lossy(units@) == out@ + decode_utf16_lossy(units@.skip(i as int)),
        decreases units.len() - i,
    {
        let ghost rest = units@.skip(i as int);
        let u = units[i];
        if i + 1 < units.len() && 0xD800 <= u && u <= 0xDBFF && 0xDC00 <= units[i + 1]
            && units[i + 1] <= 0xDFFF {
            let lo = units[i + 1];
            let v: u32 = 0x10000u32 + ((u as u32) - 0xD800u32) * 0x400u32 + ((lo as u32)
                - 0xDC00u32);
            assert(v == pair_code_point(u, lo));
            let c = match char_from_u32(v) {
                Some(c) => c,
                None => REPLACEMENT_CHARACTER,
            };
            proof {
                assert(rest.skip(2) =~= units@.skip(i + 2));
                assert(rest[0] == u && rest[1] == lo);
            }
            out.push(c);
            i = i + 2;
        } else {
            let c = if (0xD800 <= u && u <= 0xDBFF) || (0xDC00 <= u && u <= 0xDFFF) {
                REPLACEMENT_CHARACTER
            } else {
                match char_from_u32(u as u32) {
                    Some(c) => c,
                    None => REPLACEMENT_CHARACTER,
                }
            };
            proof {
                assert(rest.skip(1) =~= units@.skip(i + 1));
                assert(rest[0] == u);
                if i + 1 < units.len() {
                    assert(rest[1] == units@[i + 1]);
                }
            }
            out.push(c);
            i = i + 1;
        }
        assert(decode_utf16_lossy(units@) == out@ + decode_utf16_lossy(units@.skip(i as int)));
    }
    assert(units@.skip(i as int) =~= Seq::<u16>::empty());
    assert(out@ + Seq::<char>::empty() =~= out@);
    out
}

/// `out` in front of the text `rest`, if there is one.
pub open spec fn prepend(out: Seq<char>, rest: Option<Seq<char>>) -> Option<Seq<char>> {
    match rest {
        Some(r) => Some(out + r),
        None => None,
    }
}

/// What `String::from_utf16` makes of `units`: the text they encode, or
/// nothing when a surrogate is unpaired.
pub open spec fn decode_utf16(units: Seq<u16>) -> Option<Seq<char>>
    decreases units.len(),
{
    if units.len() == 0 {
        Some(Seq::empty())
    } else if units.len() >= 2 && is_high_surrogate(units[0]) && is_low_surrogate(units[1]) {
        prepend(seq![pair_code_point(units[0], units[1]) as char], decode_utf16(units.skip(2)))
    } else if is_high_surrogate(units[0]) || is_low_surrogate(units[0]) {
        None
    } else {
        prepend(seq![units[0] as char], decode_utf16(units.skip(1)))
    }
}

/// The text `units` encode, as `String::from_utf16` decodes it: nothing
/// when a surrogate is unpaired.
pub fn utf16_strict(units: &[u16]) -> (r: Option<Vec<char>>)
    ensures
        r matches Some(v) ==> decode_utf16(units@) == Some(v@),
        r is None ==> decode_utf16(units@) is None,
{
    let mut out: Vec<char> = Vec::new();
    let mut i: usize = 0;
    assert(units@.skip(0) =~= units@);
    assert(Seq::<char>::empty() + Seq::<char>::empty() =~= Seq::<char>::empty());
    while i < units.len()
        invariant
            i <= units.len(),
            decode_utf16(units@) == prepend(out@, decode_utf16(units@.skip(i as int))),
        decreases units.len() - i,
    {
        let ghost rest = units@.skip(i as int);
        let ghost before = out@;
        let u = units[i];
        if i + 1 < units.len() && 0xD800 <= u && u <= 0xDBFF && 0xDC00 <= units[i + 1]
            && units[i + 1] <= 0xDFFF {
            let lo = units[i + 1];
            let v: u32 = 0x10000u32 + ((u as u32) - 0xD800u32) * 0x400u32 + ((lo as u32)
                - 0xDC00u32);
            assert(v == pair_code_point(u, lo));
            let c = match char_from_u32(v) {
                Some(c) => c,
                None => REPLACEMENT_CHARACTER,
            };
            proof {
                assert(rest.skip(2) =~= units@.skip(i + 2));
                assert(rest[0] == u && rest[1] == lo);
            }
            out.push(c);
            proof {
                match decode_utf16(units@.skip(i + 2)) {
                    Some(t) => {
                        assert(before + (seq![c] + t) =~= out@ + t);
                    },
                    None => {},
                }
            }
            i = i + 2;
        } else if (0xD800 <= u && u <= 0xDBFF) || (0xDC00 <= u && u <= 0xDFFF) {
            proof {
                assert(rest[0] == u);
                if i + 1 < units.len() {
                    assert(rest[1] == units@[i + 1]);
                }
            }
            return None;
        } else {
            let c = match char_from_u32(u as u32) {
                Some(c) => c,
                None => REPLACEMENT_CHARACTER,
            };
            proof {
                assert(rest.skip(1) =~= units@.skip(i + 1));
                assert(rest[0] == u);
                if i + 1 < units.len() {
                    assert(rest[1] == units@[i + 1]);
                }
            }
            out.push(c);
            proof {
                match decode_utf16(units@.skip(i + 1)) {
                    Some(t) => {
                        assert(before + (seq![c] + t) =~= out@ + t);
                    },
                    None => {},
                }
            }
            i = i + 1;
        }
    }
    assert(units@.skip(i as int) =~= Seq::<u16>::empty());
    assert(out@ + Seq::<char>::empty() =~= out@);
    Some(out)
}

/// The code of `c` with ASCII upper-case letters folded to lower case.
pub open spec fn ascii_fold(c: char) -> u32 {
    if 65 <= (c as u32) <= 90 {
        ((c as u32) + 32) as u32
    } else {
        c as u32
    }
}

/// Whether `a` and `b` are equal when ASCII letters are compared without
/// regard to case: the same length, and each pair of characters equal once
/// folded. On text this is what `str::eq_ignore_ascii_case` decides over the
/// UTF-8 bytes, since ASCII bytes stand only for ASCII characters there.
pub open spec fn eq_ignore_ascii_case(a: Seq<char>, b: Seq<char>) -> bool {
    &&& a.len() == b.len()
    &&& forall|i: int| 0 <= i < a.len() ==> ascii_fold(#[trigger] a[i]) == ascii_fold(b[i])
}

/// Folding treats exactly the ASCII letters without regard to case: two
/// characters fold alike when they are the same, or when one is an ASCII
/// capital (`A`..=`Z`) and the other its small letter (32 above it).
pub proof fn lemma_ascii_fold(c: char, d: char)
    ensures
        (ascii_fold(c) == ascii_fold(d)) <==> (c as u32 == d as u32 || (65 <= (c as u32) <= 90
            && d as u32 == (c as u32) + 32) || (65 <= (d as u32) <= 90 && c as u32 == (d as u32)
            + 32)),
{
}

/// Texts of the same length whose characters pairwise are the same or differ
/// only in the case of an ASCII letter are equal ignoring ASCII case, and
/// only those are.
pub proof fn lemma_eq_ignore_ascii_case(a: Seq<char>, b: Seq<char>)
    ensures
        eq_ignore_ascii_case(a, b) <==> (a.len() == b.len() && forall|i: int|
            0 <= i < a.len() ==> (#[trigger] a[i] as u32 == b[i] as u32 || (65 <= (a[i] as u32)
                <= 90 && b[i] as u32 == (a[i] as u32) + 32) || (65 <= (b[i] as u32) <= 90
                && a[i] as u32 == (b[i] as u32) + 32))),
{
    if a.len() == b.len() {
        assert forall|i: int| 0 <= i < a.len() implies (ascii_fold(#[trigger] a[i]) == ascii_fold(
            b[i],
        )) == (a[i] as u32 == b[i] as u32 || (65 <= (a[i] as u32) <= 90 && b[i] as u32 == (
        a[i] as u32) + 32) || (65 <= (b[i] as u32) <= 90 && a[i] as u32 == (b[i] as u32) + 32)) by {
            lemma_ascii_fold(a[i], b[i]);
        }
    }
}

fn fold(c: char) -> (r: u32)
    ensures
        r == ascii_fold(c),
{
    let x = c as u32;
    if 65 <= x && x <= 90 {
        x + 32
    } else {
        x
    }
}

/// Whether `a` and the text `b` are equal when ASCII letters are compared
/// without regard to case.
pub fn chars_eq_ignore_ascii_case(a: &[char], b: &str) -> (r: bool)
    ensures
        r == eq_ignore_ascii_case(a@, b@),
{
    let n = b.unicode_len();
    if a.len() != n {
        return false;
    }
    let mut i: usize = 0;
    while i < n
        invariant
            i <= n,
            n == a@.len(),
            n == b@.len(),
            forall|j: int| 0 <= j < i ==> ascii_fold(#[trigger] a@[j]) == ascii_fold(b@[j]),
        decreases n - i,
    {
        if fold(a[i]) != fold(b.get_char(i)) {
            return false;
        }
        i = i + 1;
    }
    true
}

} // verus!
