//! Little-endian decoding of scalar fields out of raw byte records, with
//! closed-form specifications so that every parsed field is pinned exactly.

use vstd::prelude::*;

verus! {

/// Little-endian value of a 2-byte sequence.
pub open spec fn u16_le_spec(b: Seq<u8>) -> u16
    recommends
        b.len() == 2,
{
    (b[0] + 256 * b[1]) as u16
}

/// Little-endian value of a 4-byte sequence.
pub open spec fn u32_le_spec(b: Seq<u8>) -> u32
    recommends
        b.len() == 4,
{
    (b[0] + 256 * b[1] + 65536 * b[2] + 16777216 * b[3]) as u32
}

/// Little-endian value of an 8-byte sequence.
pub open spec fn u64_le_spec(b: Seq<u8>) -> u64
    recommends
        b.len() == 8,
{
    (b[0] + 256 * b[1] + 65536 * b[2] + 16777216 * b[3] + 4294967296 * b[4]
        + 1099511627776 * b[5] + 281474976710656 * b[6] + 72057594037927936 * b[7]) as u64
}

/// Reads the little-endian `u16` stored at `off` in `data`.
pub fn u16_le_at(data: &Vec<u8>, off: usize) -> (r: u16)
    requires
        off + 2 <= data@.len(),
    ensures
        r == u16_le_spec(data@.subrange(off as int, off + 2)),
{
    proof {
        assert(data@.len() <= usize::MAX) by {
            assert(data.len() == data@.len());
        }
    }
    let r = data[off] as u16 + 256 * (data[off + 1] as u16);
    proof {
        let s = data@.subrange(off as int, off + 2);
        assert(s[0] == data@[off as int] && s[1] == data@[off + 1]);
    }
    r
}

/// Reads the little-endian `u32` stored at `off` in `data`.
pub fn u32_le_at(data: &Vec<u8>, off: usize) -> (r: u32)
    requires
        off + 4 <= data@.len(),
    ensures
        r == u32_le_spec(data@.subrange(off as int, off + 4)),
{
    proof {
        assert(data@.len() <= usize::MAX) by {
            assert(data.len() == data@.len());
        }
    }
    let r = data[off] as u32 + 256 * (data[off + 1] as u32) + 65536 * (data[off + 2] as u32)
        + 16777216 * (data[off + 3] as u32);
    proof {
        let s = data@.subrange(off as int, off + 4);
        assert(s[0] == data@[off as int] && s[1] == data@[off + 1] && s[2] == data@[off + 2]
            && s[3] == data@[off + 3]);
    }
    r
}

/// Reads the little-endian `u64` stored at `off` in `data`.
pub fn u64_le_at(data: &Vec<u8>, off: usize) -> (r: u64)
    requires
        off + 8 <= data@.len(),
    ensures
        r == u64_le_spec(data@.subrange(off as int, off + 8)),
{
    proof {
        assert(data@.len() <= usize::MAX) by {
            assert(data.len() == data@.len());
        }
    }
    let r = data[off] as u64 + 256 * (data[off + 1] as u64) + 65536 * (data[off + 2] as u64)
        + 16777216 * (data[off + 3] as u64) + 4294967296 * (data[off + 4] as u64)
        + 1099511627776 * (data[off + 5] as u64) + 281474976710656 * (data[off + 6] as u64)
        + 72057594037927936 * (data[off + 7] as u64);
    proof {
        let s = data@.subrange(off as int, off + 8);
        assert(s[0] == data@[off as int] && s[1] == data@[off + 1] && s[2] == data@[off + 2]
            && s[3] == data@[off + 3] && s[4] == data@[off + 4] && s[5] == data@[off + 5]
            && s[6] == data@[off + 6] && s[7] == data@[off + 7]);
    }
    r
}

/// Length of the prefix of `s` that precedes the first NUL byte (the whole
/// sequence when no NUL occurs).
pub open spec fn nul_prefix_len(s: Seq<u8>) -> nat
    decreases s.len(),
{
    if s.len() == 0 {
        0
    } else if s[0] == 0 {
        0
    } else {
        1 + nul_prefix_len(s.skip(1))
    }
}

/// The prefix of `s` up to (excluding) the first NUL byte.
pub open spec fn nul_prefix(s: Seq<u8>) -> Seq<u8> {
    s.take(nul_prefix_len(s) as int)
}

/// Characterizes `nul_prefix_len` non-recursively: it is the unique cut point
/// with no NUL before it and (unless it is the whole sequence) a NUL at it.
proof fn lemma_nul_prefix_len_unique(s: Seq<u8>, n: int)
    requires
        0 <= n <= s.len(),
        forall|j: int| 0 <= j < n ==> s[j] != 0,
        n < s.len() ==> s[n] == 0,
    ensures
        nul_prefix_len(s) == n,
    decreases s.len(),
{
    if s.len() != 0 && s[0] != 0 {
        assert(n > 0);
        lemma_nul_prefix_len_unique(s.skip(1), n - 1);
    }
}

/// Copies the bytes of `data` that precede the first NUL byte.
pub fn take_until_nul(data: &Vec<u8>) -> (r: Vec<u8>)
    ensures
        r@ == nul_prefix(data@),
{
    let mut out: Vec<u8> = Vec::new();
    let mut i: usize = 0;
    while i < data.len() && data[i] != 0
        invariant
            0 <= i <= data@.len(),
            out@ == data@.take(i as int),
            forall|j: int| 0 <= j < i ==> data@[j] != 0,
        decreases data@.len() - i,
    {
        out.push(data[i]);
        i += 1;
        proof {
            assert(out@ =~= data@.take(i as int));
        }
    }
    proof {
        lemma_nul_prefix_len_unique(data@, i as int);
    }
    out
}

} // verus!
