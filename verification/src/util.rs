//! Byte-level readers over in-memory buffers. All disc and FST structures are
//! big-endian; CISO and WBFS container headers are little-endian.

use vstd::prelude::*;

verus! {

/// The big-endian 16-bit value at `i`.
pub open spec fn be16(s: Seq<u8>, i: int) -> int {
    s[i] * 0x100 + s[i + 1]
}

/// The big-endian 32-bit value at `i`.
pub open spec fn be32(s: Seq<u8>, i: int) -> int {
    s[i] * 0x1000000 + s[i + 1] * 0x10000 + s[i + 2] * 0x100 + s[i + 3]
}

/// The big-endian 24-bit value at `i`.
pub open spec fn be24(s: Seq<u8>, i: int) -> int {
    s[i] * 0x10000 + s[i + 1] * 0x100 + s[i + 2]
}

/// The big-endian 64-bit value at `i`.
pub open spec fn be64(s: Seq<u8>, i: int) -> int {
    be32(s, i) * 0x100000000 + be32(s, i + 4)
}

/// The little-endian 32-bit value at `i`.
pub open spec fn le32(s: Seq<u8>, i: int) -> int {
    s[i + 3] * 0x1000000 + s[i + 2] * 0x10000 + s[i + 1] * 0x100 + s[i]
}

/// Reads the byte at `off`.
pub fn read_u8(data: &[u8], off: usize) -> (r: u8)
    requires
        off < data@.len(),
    ensures
        r == data@[off as int],
{
    data[off]
}

/// Reads the big-endian 16-bit value at `off`.
pub fn read_u16_be(data: &[u8], off: usize) -> (r: u16)
    requires
        off + 2 <= data@.len(),
    ensures
        r as int == be16(data@, off as int),
{
    (data[off] as u16) * 0x100 + (data[off + 1] as u16)
}

/// Reads the big-endian 24-bit value at `off`.
pub fn read_u24_be(data: &[u8], off: usize) -> (r: u32)
    requires
        off + 3 <= data@.len(),
    ensures
        r as int == be24(data@, off as int),
{
    (data[off] as u32) * 0x10000 + (data[off + 1] as u32) * 0x100 + (data[off + 2] as u32)
}

/// Reads the big-endian 32-bit value at `off`.
pub fn read_u32_be(data: &[u8], off: usize) -> (r: u32)
    requires
        off + 4 <= data@.len(),
    ensures
        r as int == be32(data@, off as int),
{
    (data[off] as u32) * 0x1000000 + (data[off + 1] as u32) * 0x10000 + (data[off + 2] as u32)
        * 0x100 + (data[off + 3] as u32)
}

/// Reads the big-endian 64-bit value at `off`.
pub fn read_u64_be(data: &[u8], off: usize) -> (r: u64)
    requires
        off + 8 <= data@.len(),
    ensures
        r as int == be64(data@, off as int),
{
    let _n = data.len();
    let hi = read_u32_be(data, off);
    let lo = read_u32_be(data, off + 4);
    (hi as u64) * 0x100000000 + (lo as u64)
}

/// Reads the little-endian 32-bit value at `off`.
pub fn read_u32_le(data: &[u8], off: usize) -> (r: u32)
    requires
        off + 4 <= data@.len(),
    ensures
        r as int == le32(data@, off as int),
{
    let _n = data.len();
    (data[off + 3] as u32) * 0x1000000 + (data[off + 2] as u32) * 0x10000 + (data[off + 1] as u32)
        * 0x100 + (data[off] as u32)
}

/// Copies the byte range `off..off + len` out of `data`.
pub fn copy_range(data: &[u8], off: usize, len: usize) -> (r: Vec<u8>)
    requires
        off + len <= data@.len(),
    ensures
        r@ == data@.subrange(off as int, off as int + len as int),
{
    let n = data.len();
    let mut out: Vec<u8> = Vec::new();
    let mut k: usize = 0;
    while k < len
        invariant
            k <= len,
            off + len <= n == data@.len(),
            out@ =~= data@.subrange(off as int, off as int + k as int),
        decreases len - k,
    {
        out.push(data[off + k]);
        k = k + 1;
    }
    proof {
        assert(out@ =~= data@.subrange(off as int, off as int + len as int));
    }
    out
}

/// A vector of `len` zero bytes.
pub fn zero_vec(len: usize) -> (r: Vec<u8>)
    ensures
        r@.len() == len,
        forall|i: int| 0 <= i < len ==> r@[i] == 0u8,
{
    let mut out: Vec<u8> = Vec::new();
    let mut k: usize = 0;
    while k < len
        invariant
            k <= len,
            out@.len() == k,
            forall|i: int| 0 <= i < k ==> out@[i] == 0u8,
        decreases len - k,
    {
        out.push(0u8);
        k = k + 1;
    }
    out
}

/// Appends all of `src` to `out`.
pub fn append_bytes(out: &mut Vec<u8>, src: &[u8])
    ensures
        final(out)@ == old(out)@ + src@,
{
    let n = src.len();
    let mut k: usize = 0;
    while k < n
        invariant
            k <= n == src@.len(),
            out@ =~= old(out)@ + src@.subrange(0, k as int),
        decreases n - k,
    {
        out.push(src[k]);
        k = k + 1;
    }
    proof {
        assert(out@ =~= old(out)@ + src@);
    }
}

/// The first zero byte at or after `from`, if any.
pub fn find_nul(data: &[u8], from: usize) -> (r: Option<usize>)
    requires
        from <= data@.len(),
    ensures
        match r {
            Some(i) => from <= i < data@.len() && data@[i as int] == 0 && forall|j: int|
                from <= j < i ==> data@[j] != 0,
            None => forall|j: int| from <= j < data@.len() ==> data@[j] != 0,
        },
{
    let mut k: usize = from;
    let n = data.len();
    while k < n
        invariant
            from <= k <= n,
            n == data@.len(),
            forall|j: int| from <= j < k ==> data@[j] != 0,
        decreases n - k,
    {
        if data[k] == 0 {
            return Some(k);
        }
        k = k + 1;
    }
    None
}

} // verus!
