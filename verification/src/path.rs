//! The file-name part of a Windows path.
use vstd::prelude::*;

verus! {

/// Whether `c` separates the components of a Windows path.
pub open spec fn is_separator(c: char) -> bool {
    c == '\\' || c == '/'
}

/// The last component of `p`: its longest suffix without a separator.
pub open spec fn last_segment(p: Seq<char>) -> Seq<char>
    decreases p.len(),
{
    if p.len() == 0 || is_separator(p.last()) {
        Seq::empty()
    } else {
        last_segment(p.drop_last()).push(p.last())
    }
}

/// Whether `s` starts with a drive, such as `C:`.
pub open spec fn has_drive(s: Seq<char>) -> bool {
    &&& s.len() >= 2
    &&& ('a' <= s[0] <= 'z' || 'A' <= s[0] <= 'Z')
    &&& s[1] == ':'
}

/// The file name of the Windows path `p`, as `Path::file_name` reads it:
/// the last component, where separators at the end and `.` components are
/// ignored; none when the last component is `..`, when nothing but a drive
/// or a root is left, or when the path is `.`. A leading drive (`C:`) is
/// not part of the name. Server and verbatim prefixes (`\\server\share`,
/// `\\?\`) are read as ordinary components.
pub open spec fn file_name_of(p: Seq<char>) -> Option<Seq<char>>
    decreases p.len(),
{
    if p.len() == 0 {
        None
    } else if is_separator(p.last()) {
        file_name_of(p.drop_last())
    } else {
        let seg = last_segment(p);
        let rest = p.take(p.len() - seg.len());
        if seg =~= seq!['.'] {
            if rest.len() == 0 {
                None
            } else {
                file_name_of(rest)
            }
        } else if seg =~= seq!['.', '.'] {
            None
        } else if rest.len() == 0 && has_drive(seg) {
            if seg.len() == 2 {
                None
            } else {
                Some(seg.skip(2))
            }
        } else {
            Some(seg)
        }
    }
}

/// The last component of `q` starts at `s`, just after its last separator.
pub proof fn lemma_last_segment(q: Seq<char>, s: int)
    requires
        0 <= s <= q.len(),
        s == 0 || is_separator(q[s - 1]),
        forall|i: int| s <= i < q.len() ==> !is_separator(#[trigger] q[i]),
    ensures
        last_segment(q) == q.subrange(s, q.len() as int),
        q.len() > 0 && !is_separator(q.last()) ==> last_segment(q).len() > 0,
    decreases q.len(),
{
    if q.len() == s {
        if q.len() > 0 {
            assert(is_separator(q.last()));
        }
        assert(q.subrange(s, q.len() as int) =~= Seq::<char>::empty());
    } else {
        let d = q.drop_last();
        assert forall|i: int| s <= i < d.len() implies !is_separator(#[trigger] d[i]) by {
            assert(d[i] == q[i]);
        }
        if s > 0 {
            assert(d[s - 1] == q[s - 1]);
        }
        lemma_last_segment(d, s);
        assert(q.subrange(s, q.len() as int) =~= d.subrange(s, d.len() as int).push(q.last()));
    }
}

/// The last component of `p` is a suffix without separators, preceded by a
/// separator unless it is all of `p`.
pub proof fn lemma_last_segment_shape(p: Seq<char>)
    ensures
        last_segment(p).len() <= p.len(),
        last_segment(p) == p.subrange(p.len() - last_segment(p).len(), p.len() as int),
        forall|i: int|
            p.len() - last_segment(p).len() <= i < p.len() ==> !is_separator(#[trigger] p[i]),
        last_segment(p).len() < p.len() ==> is_separator(p[p.len() - last_segment(p).len() - 1]),
    decreases p.len(),
{
    if p.len() == 0 {
        assert(p.subrange(0, 0) =~= Seq::<char>::empty());
    } else if is_separator(p.last()) {
        assert(p.subrange(p.len() as int, p.len() as int) =~= Seq::<char>::empty());
    } else {
        let d = p.drop_last();
        lemma_last_segment_shape(d);
        let k = last_segment(d).len();
        assert(p.subrange(p.len() - (k + 1), p.len() as int) =~= d.subrange(
            d.len() - k,
            d.len() as int,
        ).push(p.last()));
        assert forall|i: int| p.len() - (k + 1) <= i < p.len() implies !is_separator(
            #[trigger] p[i],
        ) by {
            if i < p.len() - 1 {
                assert(p[i] == d[i]);
            }
        }
        if k + 1 < p.len() {
            assert(p[p.len() - (k + 1) - 1] == d[d.len() - k - 1]);
        }
    }
}

/// Every character of a file name is a character of its path, and none is a
/// separator; the name is never empty.
pub proof fn lemma_file_name_within(p: Seq<char>)
    ensures
        file_name_of(p) matches Some(n) ==> n.len() > 0 && forall|i: int|
            0 <= i < n.len() ==> !is_separator(#[trigger] n[i]) && p.contains(n[i]),
    decreases p.len(),
{
    if p.len() > 0 {
        if is_separator(p.last()) {
            let d = p.drop_last();
            lemma_file_name_within(d);
            if let Some(n) = file_name_of(p) {
                assert forall|i: int| 0 <= i < n.len() implies p.contains(#[trigger] n[i]) by {
                    let j = choose|j: int| 0 <= j < d.len() && d[j] == n[i];
                    assert(p[j] == n[i]);
                }
            }
        } else {
            lemma_last_segment_shape(p);
            let seg = last_segment(p);
            let s = p.len() - seg.len();
            let rest = p.take(s);
            lemma_file_name_within(rest);
            if let Some(n) = file_name_of(p) {
                assert forall|i: int| 0 <= i < n.len() implies !is_separator(#[trigger] n[i])
                    && p.contains(n[i]) by {
                    if seg =~= seq!['.'] {
                        let j = choose|j: int| 0 <= j < rest.len() && rest[j] == n[i];
                        assert(p[j] == n[i]);
                    } else if rest.len() == 0 && has_drive(seg) {
                        assert(n[i] == seg[2 + i]);
                        assert(seg[2 + i] == p[s + 2 + i]);
                    } else {
                        assert(n[i] == seg[i]);
                        assert(seg[i] == p[s + i]);
                    }
                }
            }
        }
    }
}

fn is_separator_char(c: char) -> (r: bool)
    ensures
        r == is_separator(c),
{
    c == '\\' || c == '/'
}

/// The characters of `path` from `a` to `b`.
fn chars_between(path: &str, a: usize, b: usize) -> (r: Vec<char>)
    requires
        a <= b <= path@.len(),
    ensures
        r@ == path@.subrange(a as int, b as int),
{
    let mut out: Vec<char> = Vec::new();
    let mut i = a;
    while i < b
        invariant
            a <= i <= b,
            b <= path@.len(),
            out@ == path@.subrange(a as int, i as int),
        decreases b - i,
    {
        out.push(path.get_char(i));
        assert(path@.subrange(a as int, i + 1) =~= path@.subrange(a as int, i as int).push(path@[i as int]));
        i = i + 1;
    }
    out
}

/// The file name of the Windows path `path`, as [`file_name_of`] reads it.
pub fn file_name(path: &str) -> (r: Option<Vec<char>>)
    ensures
        r matches Some(v) ==> file_name_of(path@) == Some(v@),
        r is None ==> file_name_of(path@) is None,
{
    let n = path.unicode_len();
    let mut end: usize = n;
    assert(path@.take(n as int) =~= path@);
    loop
        invariant
            end <= n,
            n == path@.len(),
            file_name_of(path@) == file_name_of(path@.take(end as int)),
        decreases end,
    {
        let ghost q = path@.take(end as int);
        if end == 0 {
            return None;
        }
        if is_separator_char(path.get_char(end - 1)) {
            assert(q.drop_last() =~= path@.take(end - 1));
            end = end - 1;
        } else {
            let mut start = end;
            while start > 0 && !is_separator_char(path.get_char(start - 1))
                invariant
                    start <= end,
                    end <= n,
                    n == path@.len(),
                    forall|i: int| start <= i < end ==> !is_separator(#[trigger] path@[i]),
                decreases start,
            {
                start = start - 1;
            }
            proof {
                assert forall|i: int| start <= i < q.len() implies !is_separator(#[trigger] q[i]) by {
                    assert(q[i] == path@[i]);
                }
                if start > 0 {
                    assert(q[start - 1] == path@[start - 1]);
                }
                lemma_last_segment(q, start as int);
                assert(q.take(start as int) =~= path@.take(start as int));
                assert(q.subrange(start as int, end as int) =~= path@.subrange(start as int, end as int));
            }
            let len = end - start;
            if len == 1 && path.get_char(start) == '.' {
                proof {
                    assert(last_segment(q) =~= seq!['.']);
                }
                if start == 0 {
                    return None;
                }
                end = start;
            } else if len == 2 && path.get_char(start) == '.' && path.get_char(start + 1) == '.' {
                proof {
                    assert(last_segment(q) =~= seq!['.', '.']);
                }
                return None;
            } else {
                let ghost seg = last_segment(q);
                assert(!(seg =~= seq!['.'])) by {
                    if seg =~= seq!['.'] {
                        assert(seg[0] == path@[start as int]);
                    }
                }
                assert(!(seg =~= seq!['.', '.'])) by {
                    if seg =~= seq!['.', '.'] {
                        assert(seg[0] == path@[start as int]);
                        assert(seg[1] == path@[start + 1]);
                    }
                }
                if start == 0 && len >= 2 && is_drive_letter(path.get_char(0)) && path.get_char(1)
                    == ':' {
                    assert(has_drive(seg));
                    if len == 2 {
                        return None;
                    }
                    let v = chars_between(path, 2, end);
                    assert(v@ =~= seg.skip(2));
                    return Some(v);
                } else {
                    assert(!(start == 0 && has_drive(seg)));
                    let v = chars_between(path, start, end);
                    return Some(v);
                }
            }
        }
    }
}

fn is_drive_letter(c: char) -> (r: bool)
    ensures
        r == ('a' <= c <= 'z' || 'A' <= c <= 'Z'),
{
    ('a' <= c && c <= 'z') || ('A' <= c && c <= 'Z')
}

} // verus!
