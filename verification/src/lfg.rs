//! Junk-data generator: the lagged Fibonacci generator reproducing the
//! deterministic filler written into unused disc regions during mastering.
//! Each 2048-byte sector is generated from a seed derived from the disc id,
//! the disc number, and the sector index alone.

use vstd::prelude::*;
use vstd::wrapping::u32_specs;

verus! {

/// Lag K of the generator: the state holds this many 32-bit words.
pub const LFG_K: usize = 521;

/// Lag J of the generator.
pub const LFG_J: usize = 32;

/// Number of directly seeded state words.
pub const SEED_SIZE: usize = 17;

/// One step of the seed-weaving linear congruential generator.
pub open spec fn lcg(n: u32) -> u32 {
    u32_specs::wrapping_add(u32_specs::wrapping_mul(n, 0x5D588B65), 1)
}

/// `k` weave steps from state `n`: the woven word and the new state. Each
/// step shifts the word right and feeds the generator's top bit in from the
/// left.
pub open spec fn weave(n: u32, k: nat) -> (u32, u32)
    decreases k,
{
    if k == 0 {
        (0u32, n)
    } else {
        let (v, n1) = weave(n, (k - 1) as nat);
        let n2 = lcg(n1);
        (((v >> 1u32) | (n2 & 0x80000000u32)), n2)
    }
}

/// The first `i` seed words woven from state `n0`, and the state after them.
pub open spec fn seed_words(n0: u32, i: nat) -> (Seq<u32>, u32)
    decreases i,
{
    if i == 0 {
        (Seq::<u32>::empty(), n0)
    } else {
        let (ws, n) = seed_words(n0, (i - 1) as nat);
        let (v, n2) = weave(n, 32);
        (ws.push(v), n2)
    }
}

/// The disc id bytes and disc number mixed into one word.
pub open spec fn base_seed(id: Seq<u8>, disc_num: u8) -> u32 {
    u32_specs::wrapping_add(
        (id[2] * 0x1000000 + id[1] * 0x10000 + id[3] * 0x100 + id[0]) as u32,
        disc_num as u32,
    )
}

/// The per-sector seed: the id word and the sector index, spread by two odd
/// multipliers and combined.
pub open spec fn sector_seed(id: Seq<u8>, disc_num: u8, sector: u32) -> u32 {
    u32_specs::wrapping_mul(base_seed(id, disc_num), 0x260BCD5) ^ u32_specs::wrapping_mul(
        sector,
        0x1EF29123,
    )
}

/// The last directly seeded word folded with the first, closing the seed.
pub open spec fn tweak(ws: Seq<u32>) -> Seq<u32> {
    ws.update(16, ws[16] ^ ((ws[0] >> 9u32) ^ (ws[16] << 23u32)))
}

/// One expansion step: the next state word from the words 17 and 16 back and
/// the previous word.
pub open spec fn expand1(s: Seq<u32>) -> Seq<u32> {
    s.push(
        ((s[s.len() - 17] << 23u32) ^ (s[s.len() - 16] >> 9u32)) ^ s[s.len() - 1],
    )
}

/// The state expanded to `n` words.
pub open spec fn expand_to(s: Seq<u32>, n: nat) -> Seq<u32>
    decreases n - s.len(),
{
    if s.len() >= n {
        s
    } else {
        expand_to(expand1(s), n)
    }
}

/// The word that position `i` is folded with when the generator advances.
pub open spec fn fwd_src(i: int) -> int {
    if i < 32 {
        i + 489
    } else {
        i - 32
    }
}

/// The first `i` in-place updates of one generator advance.
pub open spec fn forward_steps(s: Seq<u32>, i: nat) -> Seq<u32>
    decreases i,
{
    if i == 0 {
        s
    } else {
        let t = forward_steps(s, (i - 1) as nat);
        t.update(i - 1, t[i - 1] ^ t[fwd_src(i - 1)])
    }
}

/// One full generator advance over all 521 words.
pub open spec fn forward_full(s: Seq<u32>) -> Seq<u32> {
    forward_steps(s, 521)
}

/// `k` generator advances.
pub open spec fn forward_n(s: Seq<u32>, k: nat) -> Seq<u32>
    decreases k,
{
    if k == 0 {
        s
    } else {
        forward_full(forward_n(s, (k - 1) as nat))
    }
}

/// The generator state from which a sector's junk bytes are read: 17 woven
/// seed words, closed, expanded to 521 words, and advanced four times.
pub open spec fn sector_state(id: Seq<u8>, disc_num: u8, sector: u32) -> Seq<u32> {
    forward_n(expand_to(tweak(seed_words(sector_seed(id, disc_num, sector), 17).0), 521), 4)
}

/// Byte `b` of `w`, big-endian.
pub open spec fn word_byte(w: u32, b: int) -> u8 {
    if b == 0 {
        (w / 0x1000000) as u8
    } else if b == 1 {
        ((w / 0x10000) % 0x100) as u8
    } else if b == 2 {
        ((w / 0x100) % 0x100) as u8
    } else {
        (w % 0x100) as u8
    }
}

/// Byte `m` of the junk pattern for the given disc id, disc number and
/// sector: the state words serialized big-endian.
pub open spec fn junk_byte(id: Seq<u8>, disc_num: u8, sector: u32, m: int) -> u8 {
    word_byte(sector_state(id, disc_num, sector)[m / 4], m % 4)
}

/// Advances the generator state by one full round.
fn lfg_forward(buf: &mut Vec<u32>)
    requires
        old(buf)@.len() == 521,
    ensures
        final(buf)@ == forward_full(old(buf)@),
        final(buf)@.len() == 521,
{
    let mut i: usize = 0;
    while i < 521
        invariant
            i <= 521,
            buf@.len() == 521,
            buf@ == forward_steps(old(buf)@, i as nat),
        decreases 521 - i,
    {
        let src: usize = if i < 32 {
            i + 489
        } else {
            i - 32
        };
        let v = buf[i] ^ buf[src];
        buf.set(i, v);
        i = i + 1;
    }
}

/// Weaves the 17 seed words from the per-sector seed and closes the seed.
fn lfg_seed(n0: u32) -> (r: Vec<u32>)
    ensures
        r@ == tweak(seed_words(n0, 17).0),
        r@.len() == 17,
{
    let mut buf: Vec<u32> = Vec::new();
    let mut n: u32 = n0;
    let mut i: usize = 0;
    while i < 17
        invariant
            i <= 17,
            buf@ == seed_words(n0, i as nat).0,
            n == seed_words(n0, i as nat).1,
            buf@.len() == i,
        decreases 17 - i,
    {
        let ghost n_start = n;
        let mut v: u32 = 0;
        let mut k: usize = 0;
        while k < 32
            invariant
                k <= 32,
                v == weave(n_start, k as nat).0,
                n == weave(n_start, k as nat).1,
            decreases 32 - k,
        {
            n = n.wrapping_mul(0x5D588B65).wrapping_add(1);
            v = (v >> 1u32) | (n & 0x80000000u32);
            k = k + 1;
        }
        proof {
            assert(seed_words(n0, (i + 1) as nat).0 == seed_words(n0, i as nat).0.push(
                weave(n_start, 32).0,
            ));
        }
        buf.push(v);
        i = i + 1;
    }
    let w0 = buf[0];
    let w16 = buf[16];
    buf.set(16, w16 ^ ((w0 >> 9u32) ^ (w16 << 23u32)));
    buf
}

/// Expands a closed seed to the full 521-word state.
fn lfg_expand(buf: &mut Vec<u32>)
    requires
        old(buf)@.len() == 17,
    ensures
        final(buf)@ == expand_to(old(buf)@, 521),
        final(buf)@.len() == 521,
{
    let ghost closed = buf@;
    while buf.len() < 521
        invariant
            17 <= buf@.len() <= 521,
            expand_to(closed, 521) == expand_to(buf@, 521),
        decreases 521 - buf@.len(),
    {
        let l = buf.len();
        let w = ((buf[l - 17] << 23u32) ^ (buf[l - 16] >> 9u32)) ^ buf[l - 1];
        proof {
            assert(expand1(buf@) == buf@.push(w));
        }
        buf.push(w);
    }
    proof {
        lemma_expand_len(closed, 521);
    }
}

/// `expand_to` reaches the requested length.
proof fn lemma_expand_len(s: Seq<u32>, n: nat)
    requires
        s.len() >= 1,
    ensures
        expand_to(s, n).len() == (if s.len() >= n {
            s.len()
        } else {
            n
        }),
    decreases n - s.len(),
{
    if s.len() < n {
        lemma_expand_len(expand1(s), n);
    }
}

/// Builds the full generator state for one sector.
fn lfg_state(id: &[u8], disc_num: u8, sector: u32) -> (r: Vec<u32>)
    requires
        id@.len() >= 4,
    ensures
        r@ == sector_state(id@, disc_num, sector),
        r@.len() == 521,
{
    let _n = id.len();
    let base: u32 = (read4(id, 2) as u32) * 0x1000000 + (read4(id, 1) as u32) * 0x10000 + (read4(
        id,
        3,
    ) as u32) * 0x100 + (read4(id, 0) as u32);
    let seeded: u32 = base.wrapping_add(disc_num as u32);
    let n0: u32 = seeded.wrapping_mul(0x260BCD5) ^ sector.wrapping_mul(0x1EF29123);
    proof {
        assert(n0 == sector_seed(id@, disc_num, sector));
    }
    let mut buf = lfg_seed(n0);
    lfg_expand(&mut buf);
    lfg_forward(&mut buf);
    lfg_forward(&mut buf);
    lfg_forward(&mut buf);
    lfg_forward(&mut buf);
    proof {
        let s0 = expand_to(tweak(seed_words(n0, 17).0), 521);
        assert(forward_n(s0, 0) == s0);
        assert(forward_n(s0, 1) == forward_full(forward_n(s0, 0)));
        assert(forward_n(s0, 2) == forward_full(forward_n(s0, 1)));
        assert(forward_n(s0, 3) == forward_full(forward_n(s0, 2)));
        assert(forward_n(s0, 4) == forward_full(forward_n(s0, 3)));
    }
    buf
}

/// Generates the 2048 junk bytes of one sector from the first four disc id
/// bytes, the disc number, and the sector index.
pub fn junk_sector(id: &[u8], disc_num: u8, sector: u32) -> (r: Vec<u8>)
    requires
        id@.len() >= 4,
    ensures
        r@.len() == 2048,
        forall|m: int| 0 <= m < 2048 ==> r@[m] == junk_byte(id@, disc_num, sector, m),
{
    let buf = lfg_state(id, disc_num, sector);
    // Serialize the first 2048 bytes, big-endian per word.
    let mut out: Vec<u8> = Vec::new();
    let mut m: usize = 0;
    while m < 2048
        invariant
            m <= 2048,
            out@.len() == m,
            buf@.len() == 521,
            buf@ == sector_state(id@, disc_num, sector),
            forall|j: int| 0 <= j < m ==> out@[j] == junk_byte(id@, disc_num, sector, j),
        decreases 2048 - m,
    {
        let w = buf[m / 4];
        let b = m % 4;
        let byte: u8 = if b == 0 {
            (w / 0x1000000) as u8
        } else if b == 1 {
            ((w / 0x10000) % 0x100) as u8
        } else if b == 2 {
            ((w / 0x100) % 0x100) as u8
        } else {
            (w % 0x100) as u8
        };
        out.push(byte);
        m = m + 1;
    }
    out
}

/// Reads one of the first four id bytes.
fn read4(id: &[u8], k: usize) -> (r: u8)
    requires
        k < 4 <= id@.len(),
    ensures
        r == id@[k as int],
{
    id[k]
}

} // verus!
