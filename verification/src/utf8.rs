//! A check that a byte sequence is well-formed UTF-8.
//!
//! `is_utf8` states well-formedness the way the encoding defines it: a
//! sequence of one- to four-byte codes, with the shortest form required
//! (no overlong codes), surrogates excluded, and nothing above `U+10FFFF`.

use vstd::prelude::*;

verus! {

/// Whether `b` is a continuation byte (`10xxxxxx`).
pub open spec fn is_cont(b: u8) -> bool {
    0x80 <= b <= 0xBF
}

/// Whether `s` is well-formed UTF-8.
pub open spec fn is_utf8(s: Seq<u8>) -> bool
    decreases s.len(),
{
    if s.len() == 0 {
        true
    } else {
        let b0 = s[0];
        if b0 < 0x80 {
            is_utf8(s.skip(1))
        } else if 0xC2 <= b0 <= 0xDF {
            s.len() >= 2 && is_cont(s[1]) && is_utf8(s.skip(2))
        } else if b0 == 0xE0 {
            s.len() >= 3 && 0xA0 <= s[1] <= 0xBF && is_cont(s[2]) && is_utf8(s.skip(3))
        } else if 0xE1 <= b0 <= 0xEC || 0xEE <= b0 <= 0xEF {
            s.len() >= 3 && is_cont(s[1]) && is_cont(s[2]) && is_utf8(s.skip(3))
        } else if b0 == 0xED {
            s.len() >= 3 && 0x80 <= s[1] <= 0x9F && is_cont(s[2]) && is_utf8(s.skip(3))
        } else if b0 == 0xF0 {
            s.len() >= 4 && 0x90 <= s[1] <= 0xBF && is_cont(s[2]) && is_cont(s[3]) && is_utf8(
                s.skip(4),
            )
        } else if 0xF1 <= b0 <= 0xF3 {
            s.len() >= 4 && is_cont(s[1]) && is_cont(s[2]) && is_cont(s[3]) && is_utf8(s.skip(4))
        } else if b0 == 0xF4 {
            s.len() >= 4 && 0x80 <= s[1] <= 0x8F && is_cont(s[2]) && is_cont(s[3]) && is_utf8(
                s.skip(4),
            )
        } else {
            false
        }
    }
}

/// Read one code at position `i`: on success the number of bytes it takes,
/// on failure nothing, in either case mirroring `is_utf8` on the suffix.
fn utf8_step(s: &Vec<u8>, i: usize) -> (r: Option<usize>)
    requires
        i < s@.len(),
    ensures
        match r {
            Some(k) => 1 <= k && i + k <= s@.len() && (is_utf8(s@.skip(i as int)) <==> is_utf8(
                s@.skip(i + k),
            )),
            None => !is_utf8(s@.skip(i as int)),
        },
{
    let n = s.len();
    let b0 = s[i];
    proof {
        let t = s@.skip(i as int);
        assert(t.len() == n - i);
        assert(t[0] == s@[i as int]);
        assert(n - i >= 2 ==> t[1] == s@[i + 1]);
        assert(n - i >= 3 ==> t[2] == s@[i + 2]);
        assert(n - i >= 4 ==> t[3] == s@[i + 3]);
        assert(n - i >= 1 ==> t.skip(1) =~= s@.skip(i + 1));
        assert(n - i >= 2 ==> t.skip(2) =~= s@.skip(i + 2));
        assert(n - i >= 3 ==> t.skip(3) =~= s@.skip(i + 3));
        assert(n - i >= 4 ==> t.skip(4) =~= s@.skip(i + 4));
    }
    if b0 < 0x80 {
        Some(1)
    } else if 0xC2 <= b0 && b0 <= 0xDF {
        if n - i >= 2 && 0x80 <= s[i + 1] && s[i + 1] <= 0xBF {
            Some(2)
        } else {
            None
        }
    } else if b0 == 0xE0 {
        if n - i >= 3 && 0xA0 <= s[i + 1] && s[i + 1] <= 0xBF && 0x80 <= s[i + 2] && s[i + 2]
            <= 0xBF {
            Some(3)
        } else {
            None
        }
    } else if (0xE1 <= b0 && b0 <= 0xEC) || (0xEE <= b0 && b0 <= 0xEF) {
        if n - i >= 3 && 0x80 <= s[i + 1] && s[i + 1] <= 0xBF && 0x80 <= s[i + 2] && s[i + 2]
            <= 0xBF {
            Some(3)
        } else {
            None
        }
    } else if b0 == 0xED {
        if n - i >= 3 && 0x80 <= s[i + 1] && s[i + 1] <= 0x9F && 0x80 <= s[i + 2] && s[i + 2]
            <= 0xBF {
            Some(3)
        } else {
            None
        }
    } else if b0 == 0xF0 {
        if n - i >= 4 && 0x90 <= s[i + 1] && s[i + 1] <= 0xBF && 0x80 <= s[i + 2] && s[i + 2]
            <= 0xBF && 0x80 <= s[i + 3] && s[i + 3] <= 0xBF {
            Some(4)
        } else {
            None
        }
    } else if 0xF1 <= b0 && b0 <= 0xF3 {
        if n - i >= 4 && 0x80 <= s[i + 1] && s[i + 1] <= 0xBF && 0x80 <= s[i + 2] && s[i + 2]
            <= 0xBF && 0x80 <= s[i + 3] && s[i + 3] <= 0xBF {
            Some(4)
        } else {
            None
        }
    } else if b0 == 0xF4 {
        if n - i >= 4 && 0x80 <= s[i + 1] && s[i + 1] <= 0x8F && 0x80 <= s[i + 2] && s[i + 2]
            <= 0xBF && 0x80 <= s[i + 3] && s[i + 3] <= 0xBF {
            Some(4)
        } else {
            None
        }
    } else {
        None
    }
}

/// Decide whether `bytes` is well-formed UTF-8.
pub fn check_utf8(bytes: &Vec<u8>) -> (r: bool)
    ensures
        r == is_utf8(bytes@),
{
    let n = bytes.len();
    let mut i: usize = 0;
    assert(bytes@.skip(0) =~= bytes@);
    while i < n
        invariant
            i <= n,
            n == bytes@.len(),
            is_utf8(bytes@) <==> is_utf8(bytes@.skip(i as int)),
        decreases n - i,
    {
        match utf8_step(bytes, i) {
            Some(k) => {
                i = i + k;
            },
            None => {
                return false;
            },
        }
    }
    assert(bytes@.skip(n as int) =~= Seq::<u8>::empty());
    true
}

} // verus!
