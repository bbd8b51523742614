//! Text decodability: the reader stage must reject a stream whose lines
//! cannot be decoded as text, so decoded streams are checked to be
//! well-formed UTF-8 before they are lexed into records.

use vstd::prelude::*;

verus! {

/// A UTF-8 continuation byte.
pub open spec fn is_cont(c: u8) -> bool {
    0x80 <= c && c <= 0xBF
}

/// The bytes decode as text: they form one well-formed UTF-8 sequence — no
/// stray continuation bytes, no overlong forms, no surrogate code points,
/// nothing beyond the last code point.
pub open spec fn is_utf8(b: Seq<u8>) -> bool
    decreases b.len(),
{
    if b.len() == 0 {
        true
    } else {
        let c0 = b[0];
        if c0 < 0x80 {
            is_utf8(b.skip(1))
        } else if 0xC2 <= c0 && c0 <= 0xDF {
            b.len() >= 2 && is_cont(b[1]) && is_utf8(b.skip(2))
        } else if c0 == 0xE0 {
            b.len() >= 3 && 0xA0 <= b[1] && b[1] <= 0xBF && is_cont(b[2]) && is_utf8(b.skip(3))
        } else if c0 == 0xED {
            b.len() >= 3 && 0x80 <= b[1] && b[1] <= 0x9F && is_cont(b[2]) && is_utf8(b.skip(3))
        } else if 0xE1 <= c0 && c0 <= 0xEF {
            b.len() >= 3 && is_cont(b[1]) && is_cont(b[2]) && is_utf8(b.skip(3))
        } else if c0 == 0xF0 {
            b.len() >= 4 && 0x90 <= b[1] && b[1] <= 0xBF && is_cont(b[2]) && is_cont(b[3])
                && is_utf8(b.skip(4))
        } else if 0xF1 <= c0 && c0 <= 0xF3 {
            b.len() >= 4 && is_cont(b[1]) && is_cont(b[2]) && is_cont(b[3]) && is_utf8(b.skip(4))
        } else if c0 == 0xF4 {
            b.len() >= 4 && 0x80 <= b[1] && b[1] <= 0x8F && is_cont(b[2]) && is_cont(b[3])
                && is_utf8(b.skip(4))
        } else {
            false
        }
    }
}

fn cont(c: u8) -> (r: bool)
    ensures
        r == is_cont(c),
{
    0x80 <= c && c <= 0xBF
}

/// Check that a whole byte stream decodes as text.
pub fn check_utf8(b: &Vec<u8>) -> (r: bool)
    ensures
        r == is_utf8(b@),
{
    let n = b.len();
    let mut i: usize = 0;
    proof {
        assert(b@.skip(0) =~= b@);
    }
    while i < n
        invariant
            i <= n,
            n == b@.len(),
            is_utf8(b@) == is_utf8(b@.skip(i as int)),
        decreases n - i,
    {
        let ghost tail = b@.skip(i as int);
        proof {
            assert forall|k: int| 0 <= k < tail.len() implies tail[k] == b@[i + k] by {}
        }
        let c0 = b[i];
        let step: usize;
        if c0 < 0x80 {
            step = 1;
        } else if 0xC2 <= c0 && c0 <= 0xDF {
            if !(n - i >= 2 && cont(b[i + 1])) {
                assert(!is_utf8(tail));
                return false;
            }
            step = 2;
        } else if c0 == 0xE0 {
            if !(n - i >= 3 && 0xA0 <= b[i + 1] && b[i + 1] <= 0xBF && cont(b[i + 2])) {
                assert(!is_utf8(tail));
                return false;
            }
            step = 3;
        } else if c0 == 0xED {
            if !(n - i >= 3 && 0x80 <= b[i + 1] && b[i + 1] <= 0x9F && cont(b[i + 2])) {
                assert(!is_utf8(tail));
                return false;
            }
            step = 3;
        } else if 0xE1 <= c0 && c0 <= 0xEF {
            if !(n - i >= 3 && cont(b[i + 1]) && cont(b[i + 2])) {
                assert(!is_utf8(tail));
                return false;
            }
            step = 3;
        } else if c0 == 0xF0 {
            if !(n - i >= 4 && 0x90 <= b[i + 1] && b[i + 1] <= 0xBF && cont(b[i + 2]) && cont(
                b[i + 3],
            )) {
                assert(!is_utf8(tail));
                return false;
            }
            step = 4;
        } else if 0xF1 <= c0 && c0 <= 0xF3 {
            if !(n - i >= 4 && cont(b[i + 1]) && cont(b[i + 2]) && cont(b[i + 3])) {
                assert(!is_utf8(tail));
                return false;
            }
            step = 4;
        } else if c0 == 0xF4 {
            if !(n - i >= 4 && 0x80 <= b[i + 1] && b[i + 1] <= 0x8F && cont(b[i + 2]) && cont(
                b[i + 3],
            )) {
                assert(!is_utf8(tail));
                return false;
            }
            step = 4;
        } else {
            assert(!is_utf8(tail));
            return false;
        }
        proof {
            assert(tail.skip(step as int) =~= b@.skip(i + step));
            assert(is_utf8(tail) == is_utf8(b@.skip(i + step)));
        }
        i = i + step;
    }
    proof {
        assert(b@.skip(n as int) =~= Seq::<u8>::empty());
    }
    true
}

} // verus!
