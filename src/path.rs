//! Paths as the file system hands them out: byte strings with `/` as the separator, which need
//! not be valid text. This module finds a path's final segment, its extension, and whether it
//! names a hidden entry.

use vstd::prelude::*;
use vstd::utf8::valid_utf8;

verus! {

pub const SEPARATOR: u8 = 0x2f;

pub const DOT: u8 = 0x2e;

/// Index just past the last separator of `p` (0 if it has none): where its last segment starts.
pub open spec fn segment_start(p: Seq<u8>) -> nat
    decreases p.len(),
{
    if p.len() == 0 {
        0
    } else if p.last() == SEPARATOR {
        p.len()
    } else {
        segment_start(p.drop_last())
    }
}

/// The final segment of a path, as `Path::file_name` reads it: trailing separators and `.`
/// segments are passed over; a path that ends in `..`, or is empty, a root, or the current
/// directory, has none.
pub open spec fn file_name_of(p: Seq<u8>) -> Option<Seq<u8>>
    decreases p.len(),
{
    if p.len() == 0 {
        None
    } else if p.last() == SEPARATOR {
        file_name_of(p.drop_last())
    } else if p == seq![DOT] {
        None
    } else if p.len() >= 2 && p.last() == DOT && p[p.len() - 2] == SEPARATOR {
        file_name_of(p.drop_last())
    } else {
        let seg = p.subrange(segment_start(p) as int, p.len() as int);
        if seg == seq![DOT, DOT] {
            None
        } else {
            Some(seg)
        }
    }
}

/// Index of the last `.` in `n`, or -1.
pub open spec fn last_dot(n: Seq<u8>) -> int
    decreases n.len(),
{
    if n.len() == 0 {
        -1
    } else if n.last() == DOT {
        n.len() - 1
    } else {
        last_dot(n.drop_last())
    }
}

/// The extension of a segment: what follows its last `.`, unless that `.` is its first byte
/// or it has none.
pub open spec fn name_extension(n: Seq<u8>) -> Option<Seq<u8>> {
    let d = last_dot(n);
    if d <= 0 {
        None
    } else {
        Some(n.subrange(d + 1, n.len() as int))
    }
}

/// The extension of a path's final segment.
pub open spec fn extension_of(p: Seq<u8>) -> Option<Seq<u8>> {
    match file_name_of(p) {
        Some(n) => name_extension(n),
        None => None,
    }
}

/// A path is hidden when its final segment is text and starts with `.`.
pub open spec fn hidden_of(p: Seq<u8>) -> bool {
    match file_name_of(p) {
        Some(n) => valid_utf8(n) && n.len() > 0 && n[0] == DOT,
        None => false,
    }
}

/// The contents of an optional byte vector.
pub open spec fn opt_bytes(o: Option<Vec<u8>>) -> Option<Seq<u8>> {
    match o {
        Some(v) => Some(v@),
        None => None,
    }
}

/// Relies on `std::str::from_utf8`, which succeeds exactly on valid UTF-8.
#[verifier::external_body]
fn is_utf8(b: &[u8]) -> (r: bool)
    ensures
        r == valid_utf8(b@),
{
    std::str::from_utf8(b).is_ok()
}

/// A copy of `b[lo..hi]`.
pub fn copy_range(b: &[u8], lo: usize, hi: usize) -> (r: Vec<u8>)
    requires
        lo <= hi <= b@.len(),
    ensures
        r@ == b@.subrange(lo as int, hi as int),
{
    let mut r: Vec<u8> = Vec::new();
    let mut i: usize = lo;
    while i < hi
        invariant
            lo <= i <= hi <= b@.len(),
            r@ == b@.subrange(lo as int, i as int),
        decreases hi - i,
    {
        r.push(b[i]);
        i = i + 1;
        assert(r@ =~= b@.subrange(lo as int, i as int));
    }
    r
}

/// A copy of `b`.
pub fn bytes_of(b: &[u8]) -> (r: Vec<u8>)
    ensures
        r@ == b@,
{
    let r = copy_range(b, 0, b.len());
    assert(r@ =~= b@);
    r
}

/// The final segment of `path`.
pub fn file_name(path: &[u8]) -> (r: Option<Vec<u8>>)
    ensures
        opt_bytes(r) == file_name_of(path@),
{
    let mut end: usize = path.len();
    assert(path@.subrange(0, end as int) =~= path@);
    loop
        invariant
            end <= path@.len(),
            file_name_of(path@.subrange(0, end as int)) == file_name_of(path@),
        decreases end,
    {
        let ghost p = path@.subrange(0, end as int);
        if end == 0 {
            return None;
        }
        assert(p.drop_last() =~= path@.subrange(0, end - 1));
        if path[end - 1] == SEPARATOR {
            end = end - 1;
        } else if end == 1 && path[0] == DOT {
            assert(p =~= seq![DOT]);
            return None;
        } else if end >= 2 && path[end - 1] == DOT && path[end - 2] == SEPARATOR {
            end = end - 1;
        } else {
            assert(p != seq![DOT]);
            let mut start: usize = end - 1;
            proof {
                assert(segment_start(p) == segment_start(path@.subrange(0, start as int)));
            }
            while start > 0 && path[start - 1] != SEPARATOR
                invariant
                    start < end <= path@.len(),
                    p == path@.subrange(0, end as int),
                    segment_start(p) == segment_start(path@.subrange(0, start as int)),
                decreases start,
            {
                assert(path@.subrange(0, start as int).drop_last() =~= path@.subrange(
                    0,
                    start - 1,
                ));
                start = start - 1;
            }
            assert(path@.subrange(0, start as int).len() == start);
            if start > 0 {
                assert(path@.subrange(0, start as int).last() == SEPARATOR);
            }
            assert(segment_start(p) == start);
            let seg = copy_range(path, start, end);
            assert(seg@ =~= p.subrange(start as int, p.len() as int));
            if seg.len() == 2 && seg[0] == DOT && seg[1] == DOT {
                assert(seg@ =~= seq![DOT, DOT]);
                return None;
            }
            assert(seg@ != seq![DOT, DOT]);
            return Some(seg);
        }
    }
}

/// The extension of `path`'s final segment, if it has one.
pub fn extension(path: &[u8]) -> (r: Option<Vec<u8>>)
    ensures
        opt_bytes(r) == extension_of(path@),
{
    match file_name(path) {
        None => None,
        Some(name) => {
            let mut i: usize = name.len();
            assert(name@.subrange(0, i as int) =~= name@);
            while i > 0 && name[i - 1] != DOT
                invariant
                    i <= name@.len(),
                    last_dot(name@) == last_dot(name@.subrange(0, i as int)),
                decreases i,
            {
                assert(name@.subrange(0, i as int).drop_last() =~= name@.subrange(0, i - 1));
                i = i - 1;
            }
            if i <= 1 {
                None
            } else {
                Some(copy_range(&name, i, name.len()))
            }
        }
    }
}

/// Whether `path` names a hidden entry: its final segment is text and starts with `.`. A
/// segment that is not valid text is never hidden, and a path without a final segment is not
/// either.
pub fn path_is_hidden(path: &[u8]) -> (r: bool)
    ensures
        r == hidden_of(path@),
{
    match file_name(path) {
        None => false,
        Some(name) => name.len() > 0 && name[0] == DOT && is_utf8(&name),
    }
}

} // verus!
