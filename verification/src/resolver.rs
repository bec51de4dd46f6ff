//! The resolver: from the home directory path to the bytes written.
//!
//! `rs_username` takes the raw bytes of the home directory path, if one is
//! known, and a destination buffer, writes the user's name — the path's final
//! component, which must be well-formed UTF-8 — into the front of the buffer,
//! truncating to the buffer's capacity, and returns the number of bytes
//! written; on any failure it returns `-1` and leaves the buffer untouched.

use crate::path::file_name;
use crate::path::file_name_of;
use crate::utf8::check_utf8;
use crate::utf8::is_utf8;
use vstd::prelude::*;

verus! {

/// The bytes of the home directory path, as the resolver sees them.
pub open spec fn home_view(home: Option<&Vec<u8>>) -> Option<Seq<u8>> {
    match home {
        None => None,
        Some(h) => Some(h@),
    }
}

/// The user's name derived from the home directory path: the path's final
/// component, provided it exists and is well-formed UTF-8.
pub open spec fn resolved_name(home: Option<Seq<u8>>) -> Option<Seq<u8>> {
    match home {
        None => None,
        Some(h) => match file_name(h) {
            None => None,
            Some(name) => if is_utf8(name) {
                Some(name)
            } else {
                None
            },
        },
    }
}

/// How many bytes a resolved name of length `name_len` puts into a buffer of
/// length `capacity`: the smaller of the two.
pub open spec fn copy_len(capacity: nat, name_len: nat) -> nat {
    if capacity < name_len {
        capacity
    } else {
        name_len
    }
}

/// The value a call returns, given the home path and the buffer before the
/// call: the count of bytes written on success, `-1` on failure.
pub open spec fn resolve_result(home: Option<Seq<u8>>, dst: Seq<u8>) -> int {
    match resolved_name(home) {
        None => -1,
        Some(name) => copy_len(dst.len(), name.len()) as int,
    }
}

/// The buffer after a call, given the home path and the buffer before it:
/// the front of the name over the front of the buffer, the rest untouched.
pub open spec fn resolve_dst(home: Option<Seq<u8>>, dst: Seq<u8>) -> Seq<u8> {
    match resolved_name(home) {
        None => dst,
        Some(name) => {
            let k = copy_len(dst.len(), name.len()) as int;
            name.take(k) + dst.skip(k)
        },
    }
}

/// Copy the front of `name` into the front of `buf`, as much as fits, and
/// return how many bytes were copied.
fn copy_prefix(name: &Vec<u8>, buf: &mut Vec<u8>) -> (k: usize)
    ensures
        k == copy_len(old(buf)@.len(), name@.len()),
        final(buf)@ == name@.take(k as int) + old(buf)@.skip(k as int),
{
    let k = if buf.len() < name.len() {
        buf.len()
    } else {
        name.len()
    };
    let mut i: usize = 0;
    while i < k
        invariant
            i <= k,
            k <= name@.len(),
            k <= buf@.len(),
            buf@.len() == old(buf)@.len(),
            forall|j: int| 0 <= j < i ==> buf@[j] == name@[j],
            forall|j: int| i <= j < buf@.len() ==> buf@[j] == old(buf)@[j],
        decreases k - i,
    {
        let b = name[i];
        buf[i] = b;
        i = i + 1;
    }
    assert(buf@ =~= name@.take(k as int) + old(buf)@.skip(k as int));
    k
}

/// Resolve the user's name from the home directory path `home`: the path's
/// final component, provided it exists and is well-formed UTF-8.
pub fn username_of(home: Option<&Vec<u8>>) -> (r: Option<Vec<u8>>)
    ensures
        match r {
            Some(name) => resolved_name(home_view(home)) == Some(name@),
            None => resolved_name(home_view(home)) is None,
        },
{
    match home {
        None => None,
        Some(h) => {
            match file_name_of(h) {
                None => None,
                Some(name) => {
                    if check_utf8(&name) {
                        Some(name)
                    } else {
                        None
                    }
                },
            }
        },
    }
}

/// Resolve the user's name from the home directory path `home` and write it
/// into the front of `buf`, truncating to `buf`'s length; return the number
/// of bytes written, or `-1` when no name can be resolved, in which case
/// `buf` is left untouched.
pub fn rs_username(home: Option<&Vec<u8>>, buf: &mut Vec<u8>) -> (r: i32)
    requires
        (resolved_name(home_view(home)) matches Some(name) ==> copy_len(
            old(buf)@.len(),
            name.len(),
        ) <= i32::MAX),
    ensures
        r as int == resolve_result(home_view(home), old(buf)@),
        final(buf)@ == resolve_dst(home_view(home), old(buf)@),
        final(buf)@.len() == old(buf)@.len(),
        r == -1 <==> resolved_name(home_view(home)) is None,
        r == -1 ==> final(buf)@ == old(buf)@,
        (resolved_name(home_view(home)) matches Some(name) ==> r == copy_len(
            old(buf)@.len(),
            name.len(),
        ) && (forall|j: int| 0 <= j < r ==> final(buf)@[j] == name[j])),
        forall|j: int| r <= j < old(buf)@.len() ==> final(buf)@[j] == old(buf)@[j],
{
    match username_of(home) {
        None => -1,
        Some(name) => {
            let k = copy_prefix(&name, buf);
            k as i32
        },
    }
}

/// Resolving is idempotent: running the resolver again, with the same home
/// path, over the buffer a first run left behind returns the same count and
/// leaves the buffer exactly as the first run did.
pub proof fn lemma_resolve_idempotent(home: Option<Seq<u8>>, dst: Seq<u8>)
    ensures
        resolve_result(home, resolve_dst(home, dst)) == resolve_result(home, dst),
        resolve_dst(home, resolve_dst(home, dst)) == resolve_dst(home, dst),
{
    match resolved_name(home) {
        None => {},
        Some(name) => {
            let k = copy_len(dst.len(), name.len()) as int;
            let d1 = resolve_dst(home, dst);
            assert(d1.len() == dst.len());
            assert(d1.skip(k) =~= dst.skip(k));
            assert(resolve_dst(home, d1) =~= d1);
        },
    }
}

/// No write lands outside the buffer or past the copied count: the buffer
/// keeps its length, and every byte at or beyond `resolve_result` — in
/// particular every byte at or beyond the name's length — is untouched.
pub proof fn lemma_no_write_out_of_bounds(home: Option<Seq<u8>>, dst: Seq<u8>)
    ensures
        resolve_dst(home, dst).len() == dst.len(),
        forall|j: int|
            resolve_result(home, dst) <= j < dst.len() ==> resolve_dst(home, dst)[j] == dst[j],
{
}

/// Truncation: when the buffer is shorter than the resolved name, the call
/// reports the buffer's full length and fills the whole buffer with the
/// front of the name.
pub proof fn lemma_truncates(home: Option<Seq<u8>>, dst: Seq<u8>)
    requires
        resolved_name(home) matches Some(name) && dst.len() < name.len(),
    ensures
        resolve_result(home, dst) == dst.len() as int,
        resolve_dst(home, dst) == resolved_name(home)->0.take(dst.len() as int),
{
    let name = resolved_name(home)->0;
    assert(resolve_dst(home, dst) =~= name.take(dst.len() as int));
}

/// A buffer of length zero gets nothing written and, when the name resolves,
/// a count of zero back.
pub proof fn lemma_zero_capacity(home: Option<Seq<u8>>, dst: Seq<u8>)
    requires
        dst.len() == 0,
        resolved_name(home) is Some,
    ensures
        resolve_result(home, dst) == 0,
        resolve_dst(home, dst) == dst,
{
    assert(resolve_dst(home, dst) =~= dst);
}

/// When no name resolves, the call reports `-1` and the buffer comes through
/// unchanged.
pub proof fn lemma_failure_leaves_buffer(home: Option<Seq<u8>>, dst: Seq<u8>)
    requires
        resolved_name(home) is None,
    ensures
        resolve_result(home, dst) == -1,
        resolve_dst(home, dst) == dst,
{
}

} // verus!
