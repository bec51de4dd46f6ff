//! Extraction of the final component of a byte path.
//!
//! A path is a sequence of bytes whose segments are separated by `/`. Its
//! file name is the last segment, read the way path components are usually
//! read: trailing separators are ignored, `.` segments are skipped, and a
//! path whose last real segment is `..` has no file name.

use vstd::prelude::*;

verus! {

/// Byte value of the path separator `/`.
pub const SEP: u8 = 47;

/// Byte value of `.`.
pub const DOT: u8 = 46;

/// The longest suffix of `s` that contains no separator byte.
pub open spec fn last_segment(s: Seq<u8>) -> Seq<u8>
    decreases s.len(),
{
    if s.len() == 0 {
        Seq::empty()
    } else if s.last() == SEP {
        Seq::empty()
    } else {
        last_segment(s.drop_last()).push(s.last())
    }
}

/// Whether `s` is exactly the segment `..`.
pub open spec fn is_parent_segment(s: Seq<u8>) -> bool {
    s.len() == 2 && s[0] == DOT && s[1] == DOT
}

/// The final path component of `s`, if it has one.
///
/// Trailing separators and trailing `.` segments are peeled off; what is left
/// ends, if anything is left, in the last real segment. A path with no such
/// segment, or whose last segment is `..`, has no file name.
pub open spec fn file_name(s: Seq<u8>) -> Option<Seq<u8>>
    decreases s.len(),
{
    if s.len() == 0 {
        None
    } else if s.last() == SEP {
        file_name(s.drop_last())
    } else if s.last() == DOT && (s.len() == 1 || s[s.len() - 2] == SEP) {
        file_name(s.drop_last())
    } else {
        let name = last_segment(s);
        if is_parent_segment(name) {
            None
        } else {
            Some(name)
        }
    }
}

/// The last segment of `s` is its suffix from `k` on, provided no separator
/// occurs from `k` on and position `k` sits just after a separator or at the
/// start.
proof fn lemma_last_segment_suffix(s: Seq<u8>, k: int)
    requires
        0 <= k <= s.len(),
        forall|i: int| k <= i < s.len() ==> s[i] != SEP,
        k == 0 || s[k - 1] == SEP,
    ensures
        last_segment(s) == s.subrange(k, s.len() as int),
    decreases s.len(),
{
    if s.len() == k {
        if k == 0 {
            assert(last_segment(s) =~= s.subrange(k, s.len() as int));
        } else {
            assert(s.last() == s[k - 1]);
            assert(last_segment(s) =~= s.subrange(k, s.len() as int));
        }
    } else {
        assert(s.last() != SEP);
        let t = s.drop_last();
        assert(forall|i: int| k <= i < t.len() ==> t[i] == s[i]);
        lemma_last_segment_suffix(t, k);
        assert(last_segment(s) == last_segment(t).push(s.last()));
        assert(last_segment(t).push(s.last()) =~= s.subrange(k, s.len() as int));
    }
}

/// Extract the final path component of `path`, as `file_name` describes it.
pub fn file_name_of(path: &Vec<u8>) -> (r: Option<Vec<u8>>)
    ensures
        match r {
            Some(name) => file_name(path@) == Some(name@),
            None => file_name(path@) is None,
        },
{
    let mut end: usize = path.len();
    assert(path@.subrange(0, end as int) =~= path@);
    while end > 0 && (path[end - 1] == SEP || (path[end - 1] == DOT && (end == 1 || path[end
        - 2] == SEP)))
        invariant
            end <= path@.len(),
            file_name(path@) == file_name(path@.subrange(0, end as int)),
        decreases end,
    {
        proof {
            let t = path@.subrange(0, end as int);
            assert(t.last() == path@[end - 1]);
            assert(end >= 2 ==> t[t.len() - 2] == path@[end - 2]);
            assert(file_name(t) == file_name(t.drop_last()));
            assert(t.drop_last() =~= path@.subrange(0, end - 1));
        }
        end = end - 1;
    }
    if end == 0 {
        assert(path@.subrange(0, 0) =~= Seq::<u8>::empty());
        return None;
    }
    let mut start: usize = end;
    while start > 0 && path[start - 1] != SEP
        invariant
            start <= end,
            end <= path@.len(),
            forall|i: int| start <= i < end ==> path@[i] != SEP,
        decreases start,
    {
        start = start - 1;
    }
    let mut name: Vec<u8> = Vec::new();
    let mut i: usize = start;
    while i < end
        invariant
            start <= i <= end,
            end <= path@.len(),
            name@ == path@.subrange(start as int, i as int),
        decreases end - i,
    {
        let b = path[i];
        name.push(b);
        assert(name@ =~= path@.subrange(start as int, i + 1));
        i = i + 1;
    }
    proof {
        let t = path@.subrange(0, end as int);
        assert(t.last() == path@[end - 1]);
        assert(end >= 2 ==> t[t.len() - 2] == path@[end - 2]);
        assert(forall|j: int| start <= j < t.len() ==> t[j] == path@[j]);
        lemma_last_segment_suffix(t, start as int);
        assert(t.subrange(start as int, t.len() as int) =~= path@.subrange(
            start as int,
            end as int,
        ));
        assert(last_segment(t) == name@);
    }
    if name.len() == 2 && name[0] == DOT && name[1] == DOT {
        None
    } else {
        Some(name)
    }
}

} // verus!
