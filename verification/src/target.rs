//! Which process the command line names: a pid, or else a name.
use vstd::prelude::*;

verus! {

pub open spec fn is_digit(c: char) -> bool {
    '0' <= c <= '9'
}

pub open spec fn all_digits(s: Seq<char>) -> bool {
    forall|i: int| 0 <= i < s.len() ==> is_digit(#[trigger] s[i])
}

/// The number the decimal digits `s` write.
pub open spec fn digits_value(s: Seq<char>) -> int
    decreases s.len(),
{
    if s.len() == 0 {
        0
    } else {
        digits_value(s.drop_last()) * 10 + ((s.last() as int) - 48)
    }
}

/// The digits of `s`, after an optional leading `+`.
pub open spec fn unsigned_digits(s: Seq<char>) -> Seq<char> {
    if s.len() > 0 && s[0] == '+' {
        s.skip(1)
    } else {
        s
    }
}

/// What `str::parse::<u32>` gives for `s`: the value of the decimal digits
/// after an optional `+`, when there is at least one digit, nothing else,
/// and the value fits in a `u32`.
pub open spec fn parse_u32(s: Seq<char>) -> Option<u32> {
    let d = unsigned_digits(s);
    if d.len() > 0 && all_digits(d) && digits_value(d) <= u32::MAX {
        Some(digits_value(d) as u32)
    } else {
        None
    }
}

/// Adding digits never lowers the value.
pub proof fn lemma_digits_value_grows(s: Seq<char>, k: int)
    requires
        all_digits(s),
        0 <= k <= s.len(),
    ensures
        digits_value(s.take(k)) <= digits_value(s),
        digits_value(s) >= 0,
    decreases s.len(),
{
    if s.len() == 0 {
        assert(s.take(k) =~= s);
    } else if k == s.len() {
        assert(s.take(k) =~= s);
        lemma_digits_value_grows(s.drop_last(), 0);
    } else {
        lemma_digits_value_grows(s.drop_last(), k);
        assert(s.drop_last().take(k) =~= s.take(k));
    }
}

/// The pid `s` writes, as `str::parse::<u32>` reads it.
pub fn parse_pid(s: &str) -> (r: Option<u32>)
    ensures
        r == parse_u32(s@),
{
    let n = s.unicode_len();
    let ghost d = unsigned_digits(s@);
    let start: usize = if n > 0 && s.get_char(0) == '+' { 1 } else { 0 };
    assert(d =~= s@.skip(start as int));
    if start == n {
        return None;
    }
    let mut value: u32 = 0;
    let mut i: usize = start;
    while i < n
        invariant
            start <= i <= n,
            n == s@.len(),
            d =~= s@.skip(start as int),
            d == unsigned_digits(s@),
            all_digits(d.take(i - start)),
            value as int == digits_value(d.take(i - start)),
        decreases n - i,
    {
        let c = s.get_char(i);
        let ghost k = i - start;
        assert(d[k] == c);
        if !('0' <= c && c <= '9') {
            assert(!all_digits(d));
            return None;
        }
        let digit: u32 = (c as u32) - 48;
        assert(d.take(k + 1).drop_last() =~= d.take(k));
        assert(d.take(k + 1).last() == c);
        assert(all_digits(d.take(k + 1)));
        match value.checked_mul(10) {
            Some(v10) => match v10.checked_add(digit) {
                Some(v) => {
                    value = v;
                },
                None => {
                    proof {
                        if all_digits(d) {
                            lemma_digits_value_grows(d, k + 1);
                        }
                    }
                    return None;
                },
            },
            None => {
                proof {
                    lemma_digits_value_grows(d.take(k), 0);
                    if all_digits(d) {
                        lemma_digits_value_grows(d, k + 1);
                    }
                }
                return None;
            },
        }
        i = i + 1;
    }
    assert(d.take(n - start) =~= d);
    Some(value)
}

/// The process the command line names.
#[derive(Debug, Clone, Copy, PartialEq, Eq, Structural)]
pub enum Target {
    /// The process with this id.
    Pid(u32),
    /// The process with the name as written.
    Name,
}

/// A pid when the argument reads as one, else a name.
pub fn parse_target(pid_or_name: &str) -> (r: Target)
    ensures
        r == (match parse_u32(pid_or_name@) {
            Some(pid) => Target::Pid(pid),
            None => Target::Name,
        }),
{
    match parse_pid(pid_or_name) {
        Some(pid) => Target::Pid(pid),
        None => Target::Name,
    }
}

} // verus!
