//! Block providers: normalize each supported container format to a
//! sector-aligned logical disc. A provider maps a logical block index to the
//! container bytes that store it; sparse blocks read as zeros, or as the
//! deterministic junk pattern when an NKit sidecar flags them as junk.

use vstd::prelude::*;

use crate::{Error, Result};
use crate::common::{Compression, DiscMeta, Format};
use crate::lfg::{junk_byte, junk_sector};
use crate::nkit::{spec_is_junk_block, NKitHeader};
use crate::util::{be32, le32, read_u16_be, read_u32_le, read_u8};

verus! {

/// Size in bytes of the CISO container header.
pub const CISO_HEADER_SIZE: usize = 0x8000;

/// Number of entries in the CISO block map.
pub const CISO_MAP_SIZE: usize = 0x7FF8;

/// Size in bytes of a single-layer DVD, bounding a WBFS-stored disc.
pub const SL_DVD_SIZE: u64 = 4699979776;

/// Byte offset at which a WBFS container stores its NKit sidecar header.
pub const WBFS_NKIT_OFFSET: usize = 0x10000;

/// How a provider maps logical blocks onto the container bytes.
pub enum BlockMap {
    /// Raw ISO: block `i` is stored at `i * block_size`.
    Iso,
    /// CISO: `map[i]` is non-zero when block `i` is stored; stored blocks
    /// follow the header in index order, and `rank[i]` counts the stored
    /// blocks before block `i`.
    Ciso {
        /// One byte per block: non-zero marks the block as stored.
        map: Vec<u8>,
        /// `rank[i]` is the number of stored blocks with index below `i`.
        rank: Vec<u32>,
    },
    /// WBFS: `wlba[i]` is the container block that stores logical block `i`,
    /// with 0 marking a sparse block.
    Wbfs {
        /// The per-disc logical-to-container block table.
        wlba: Vec<u16>,
    },
}

/// A block provider: the container bytes plus the parsed mapping, the
/// optional NKit sidecar, and what the junk generator needs.
pub struct BlockProvider {
    /// The container file's bytes.
    pub data: Vec<u8>,
    /// The logical-to-stored block mapping.
    pub kind: BlockMap,
    /// The NKit sidecar header, when the container carries one.
    pub nkit: Option<NKitHeader>,
    /// The first four bytes of the disc's game id, seeding the junk pattern.
    pub junk_id: Vec<u8>,
    /// The disc number, seeding the junk pattern.
    pub disc_num: u8,
    /// The provider's block size in bytes.
    pub block_size: u32,
    /// Container-level metadata.
    pub meta: DiscMeta,
}

/// `count_present` never exceeds the number of entries counted.
pub proof fn lemma_count_bound(map: Seq<u8>, i: int)
    ensures
        0 <= count_present(map, i) <= (if i >= 0 {
            i
        } else {
            0
        }),
    decreases i,
{
    if i > 0 {
        lemma_count_bound(map, i - 1);
    }
}

/// The number of ones among the first `i` entries of the block map.
pub open spec fn count_present(map: Seq<u8>, i: int) -> int
    decreases i,
{
    if i <= 0 {
        0
    } else {
        count_present(map, i - 1) + (if map[i - 1] != 0 {
            1int
        } else {
            0
        })
    }
}

impl BlockProvider {
    /// Provider well-formedness: a sector-aligned block size, a 4-byte junk
    /// id, and a consistent block mapping.
    pub open spec fn wf(&self) -> bool {
        &&& self.block_size >= 2048
        &&& self.block_size % 2048 == 0
        &&& self.junk_id@.len() == 4
        &&& match self.kind {
            BlockMap::Iso => true,
            BlockMap::Ciso { map, rank } => {
                &&& map@.len() == CISO_MAP_SIZE
                &&& rank@.len() == CISO_MAP_SIZE
                &&& forall|i: int| 0 <= i < CISO_MAP_SIZE ==> rank@[i] == count_present(map@, i)
            },
            BlockMap::Wbfs { wlba } => wlba@.len() <= 0x10000,
        }
    }

    /// Logical block `b` is stored in the container.
    pub open spec fn present(&self, b: int) -> bool {
        match self.kind {
            BlockMap::Iso => b >= 0,
            BlockMap::Ciso { map, .. } => 0 <= b < map@.len() && map[b] != 0,
            BlockMap::Wbfs { wlba } => 0 <= b < wlba@.len() && wlba[b] != 0,
        }
    }

    /// The container byte offset at which stored block `b` begins.
    pub open spec fn stored_off(&self, b: int) -> int {
        match self.kind {
            BlockMap::Iso => b * self.block_size,
            BlockMap::Ciso { rank, .. } => CISO_HEADER_SIZE + rank[b] * self.block_size,
            BlockMap::Wbfs { wlba } => wlba[b] * self.block_size,
        }
    }

    /// The NKit sidecar flags block `b` as junk-filled.
    pub open spec fn junk_flag(&self, b: int) -> bool {
        match self.nkit {
            Some(h) => 0 <= b < 0x100000000 && spec_is_junk_block(&h, b as u32) == Some(true),
            None => false,
        }
    }

    /// Byte `o` of the logical disc that this provider presents: the stored
    /// container byte for stored blocks (zero past the container's end), the
    /// junk pattern for flagged sparse blocks, zero otherwise.
    pub open spec fn byte_at(&self, o: int) -> u8 {
        let b = o / self.block_size as int;
        if self.present(b) {
            let a = self.stored_off(b) + o % self.block_size as int;
            if a < self.data@.len() {
                self.data@[a]
            } else {
                0
            }
        } else if self.junk_flag(b) {
            junk_byte(self.junk_id@, self.disc_num, ((o / 2048) as u64) as u32, o % 2048)
        } else {
            0
        }
    }

    /// The provider's metadata.
    pub fn meta(&self) -> (r: &DiscMeta)
        ensures
            r == &self.meta,
    {
        &self.meta
    }

    /// Reads the 2048-byte disc sector at `sector`.
    pub fn read_sector(&self, sector: u64) -> (r: Vec<u8>)
        requires
            self.wf(),
            sector < 0x80000000,
        ensures
            r@.len() == 2048,
            forall|t: int| 0 <= t < 2048 ==> r@[t] == self.byte_at(sector as int * 2048 + t),
    {
        let bs = self.block_size as u64;
        let spb = bs / 2048;
        let block = sector / spb;
        let inblock = (sector % spb) * 2048;
        proof {
            lemma_sector_addr(bs as int, sector as int, 0);
            assert(block * bs <= 0x8000000000000000) by (nonlinear_arith)
                requires
                    0 <= block < 0x80000000,
                    0 < bs <= 0x100000000,
            ;
        }
        let mut addr: u64 = 0;
        let mut stored: bool = false;
        match &self.kind {
            BlockMap::Iso => {
                stored = true;
                addr = block * bs + inblock;
            },
            BlockMap::Ciso { map, rank } => {
                if block < CISO_MAP_SIZE as u64 && map[block as usize] != 0 {
                    stored = true;
                    let rk = rank[block as usize] as u64;
                    proof {
                        lemma_count_bound(map@, block as int);
                        assert(rk * bs <= 0x7FF8 * 0x100000000) by (nonlinear_arith)
                            requires
                                0 <= rk <= 0x7FF8,
                                0 < bs <= 0x100000000,
                        ;
                    }
                    addr = CISO_HEADER_SIZE as u64 + rk * bs + inblock;
                }
            },
            BlockMap::Wbfs { wlba } => {
                if block < wlba.len() as u64 && wlba[block as usize] != 0 {
                    stored = true;
                    let w = wlba[block as usize] as u64;
                    proof {
                        assert(w * bs <= 0xFFFF * 0x100000000) by (nonlinear_arith)
                            requires
                                0 <= w <= 0xFFFF,
                                0 < bs <= 0x100000000,
                        ;
                    }
                    addr = w * bs + inblock;
                }
            },
        }
        if stored {
            let dlen = self.data.len();
            let mut out: Vec<u8> = Vec::new();
            let mut t: usize = 0;
            while t < 2048
                invariant
                    t <= 2048,
                    out@.len() == t,
                    dlen == self.data@.len(),
                    addr + 2048 <= u64::MAX,
                    forall|j: int|
                        0 <= j < t ==> out@[j] == (if addr + j < self.data@.len() {
                            self.data@[addr as int + j]
                        } else {
                            0u8
                        }),
                decreases 2048 - t,
            {
                let a = addr + t as u64;
                if a < dlen as u64 {
                    out.push(self.data[a as usize]);
                } else {
                    out.push(0);
                }
                t = t + 1;
            }
            proof {
                assert forall|t2: int| 0 <= t2 < 2048 implies out@[t2] == self.byte_at(
                    sector as int * 2048 + t2,
                ) by {
                    lemma_sector_addr(bs as int, sector as int, t2);
                    let o = sector as int * 2048 + t2;
                    assert(o / self.block_size as int == block as int);
                    assert(o % self.block_size as int == inblock as int + t2);
                    assert(self.present(block as int));
                    assert(self.stored_off(block as int) + o % self.block_size as int == addr as int
                        + t2);
                }
            }
            out
        } else {
            let junk = match &self.nkit {
                Some(h) => {
                    match h.is_junk_block(block as u32) {
                        Some(true) => true,
                        _ => false,
                    }
                },
                None => false,
            };
            proof {
                assert(junk == self.junk_flag(block as int));
            }
            if junk {
                let r = junk_sector(self.junk_id.as_slice(), self.disc_num, sector as u32);
                proof {
                    assert forall|t2: int| 0 <= t2 < 2048 implies r@[t2] == self.byte_at(
                        sector as int * 2048 + t2,
                    ) by {
                        lemma_sector_addr(bs as int, sector as int, t2);
                        lemma_div_2048(sector as int, t2);
                        let o = sector as int * 2048 + t2;
                        assert(!self.present(o / self.block_size as int));
                        assert(self.junk_flag(o / self.block_size as int));
                    }
                }
                r
            } else {
                let r = crate::util::zero_vec(2048);
                proof {
                    assert forall|t2: int| 0 <= t2 < 2048 implies r@[t2] == self.byte_at(
                        sector as int * 2048 + t2,
                    ) by {
                        lemma_sector_addr(bs as int, sector as int, t2);
                        let o = sector as int * 2048 + t2;
                        assert(!self.present(o / self.block_size as int));
                        assert(!self.junk_flag(o / self.block_size as int));
                    }
                }
                r
            }
        }
    }
}

/// Splitting a sector address by the sector size itself.
proof fn lemma_div_2048(sector: int, t: int)
    requires
        sector >= 0,
        0 <= t < 2048,
    ensures
        (sector * 2048 + t) / 2048 == sector,
        (sector * 2048 + t) % 2048 == t,
{
    vstd::arithmetic::div_mod::lemma_fundamental_div_mod_converse(
        sector * 2048 + t,
        2048,
        sector,
        t,
    );
}

/// Splitting a sector address by the block size: with `bs` a positive
/// multiple of 2048, byte `sector * 2048 + t` of the disc lies in block
/// `sector / (bs / 2048)` at in-block offset
/// `(sector % (bs / 2048)) * 2048 + t`.
proof fn lemma_sector_addr(bs: int, sector: int, t: int)
    requires
        bs >= 2048,
        bs % 2048 == 0,
        sector >= 0,
        0 <= t < 2048,
    ensures
        (sector * 2048 + t) / bs == sector / (bs / 2048),
        (sector * 2048 + t) % bs == (sector % (bs / 2048)) * 2048 + t,
{
    let spb = bs / 2048;
    vstd::arithmetic::div_mod::lemma_fundamental_div_mod(bs, 2048);
    assert(bs == spb * 2048);
    vstd::arithmetic::div_mod::lemma_fundamental_div_mod(sector, spb);
    vstd::arithmetic::div_mod::lemma_mod_bound(sector, spb);
    let q = sector / spb;
    let r = sector % spb;
    assert(sector * 2048 + t == q * bs + (r * 2048 + t)) by (nonlinear_arith)
        requires
            sector == spb * q + r,
            bs == spb * 2048,
    ;
    assert(0 <= r * 2048 + t < bs) by (nonlinear_arith)
        requires
            0 <= r < spb,
            0 <= t < 2048,
            bs == spb * 2048,
    ;
    vstd::arithmetic::div_mod::lemma_fundamental_div_mod_converse(
        sector * 2048 + t,
        bs,
        q,
        r * 2048 + t,
    );
}

/// Reads `len` logical disc bytes starting at `off`.
pub fn read_bytes_at(bp: &BlockProvider, off: u64, len: usize) -> (r: Vec<u8>)
    requires
        bp.wf(),
        off + len < 0x40000000000,
    ensures
        r@.len() == len,
        forall|k: int| 0 <= k < len ==> r@[k] == bp.byte_at(off as int + k),
{
    let mut out: Vec<u8> = Vec::new();
    while out.len() < len
        invariant
            bp.wf(),
            off + len < 0x40000000000,
            out@.len() <= len,
            forall|k: int| 0 <= k < out@.len() ==> out@[k] == bp.byte_at(off as int + k),
        decreases len - out@.len(),
    {
        let done = out.len();
        let pos = off + done as u64;
        let sector = pos / 2048;
        let within = (pos % 2048) as usize;
        proof {
            vstd::arithmetic::div_mod::lemma_fundamental_div_mod(pos as int, 2048);
        }
        let sec = bp.read_sector(sector);
        let room = 2048 - within;
        let want = len - done;
        let take = if room < want {
            room
        } else {
            want
        };
        let mut j: usize = 0;
        while j < take
            invariant
                j <= take,
                within + take <= 2048,
                out@.len() == done + j,
                done + take <= len,
                sec@.len() == 2048,
                pos == off + done,
                pos == sector * 2048 + within,
                forall|t: int| 0 <= t < 2048 ==> sec@[t] == bp.byte_at(sector as int * 2048 + t),
                forall|k: int| 0 <= k < done ==> out@[k] == bp.byte_at(off as int + k),
                forall|k: int| done <= k < done + j ==> out@[k] == bp.byte_at(off as int + k),
            decreases take - j,
        {
            out.push(sec[within + j]);
            j = j + 1;
        }
        proof {
            assert(out@.len() == done + take);
            assert(take >= 1);
        }
    }
    out
}

/// Reads one whole logical block, as the block-provider interface hands
/// blocks to the disc reader.
pub fn read_block(bp: &BlockProvider, block: u32) -> (r: Vec<u8>)
    requires
        bp.wf(),
        (block + 1) * bp.block_size < 0x40000000000,
    ensures
        r@.len() == bp.block_size,
        forall|k: int|
            0 <= k < bp.block_size ==> r@[k] == bp.byte_at(block as int * bp.block_size as int + k),
{
    proof {
        assert((block + 1) as int * bp.block_size as int == block as int * bp.block_size as int
            + bp.block_size as int) by (nonlinear_arith);
    }
    read_bytes_at(bp, block as u64 * bp.block_size as u64, bp.block_size as usize)
}

/// The detected container format of `s`, by the magic values at its start.
pub open spec fn spec_detect(s: Seq<u8>) -> Option<Format> {
    if s.len() < 4 {
        None::<Format>
    } else if s[0] == 0x43 && s[1] == 0x49 && s[2] == 0x53 && s[3] == 0x4F {
        Some(Format::Ciso)
    } else if s[0] == 0x57 && s[1] == 0x42 && s[2] == 0x46 && s[3] == 0x53 {
        Some(Format::Wbfs)
    } else if s[0] == 0x57 && s[1] == 0x49 && s[2] == 0x41 && s[3] == 0x01 {
        Some(Format::Wia)
    } else if s[0] == 0x52 && s[1] == 0x56 && s[2] == 0x5A && s[3] == 0x01 {
        Some(Format::Rvz)
    } else if le32(s, 0) == 0xB10BC001 {
        Some(Format::Gcz)
    } else if s[0] == 0x45 && s[1] == 0x47 && s[2] == 0x47 && s[3] == 0x53 {
        Some(Format::Nfs)
    } else if s.len() >= 0x20 && (be32(s, 0x18) == crate::common::WII_MAGIC || be32(s, 0x1C)
        == crate::common::GCN_MAGIC) {
        Some(Format::Iso)
    } else {
        None::<Format>
    }
}

/// Detects the container format by its magic values; raw ISO is recognized by
/// the GameCube or Wii magic in its disc header.
pub fn detect(data: &[u8]) -> (r: Option<Format>)
    ensures
        r == spec_detect(data@),
{
    let n = data.len();
    if n < 4 {
        return None;
    }
    let b0 = read_u8(data, 0);
    let b1 = read_u8(data, 1);
    let b2 = read_u8(data, 2);
    let b3 = read_u8(data, 3);
    if b0 == 0x43 && b1 == 0x49 && b2 == 0x53 && b3 == 0x4F {
        Some(Format::Ciso)
    } else if b0 == 0x57 && b1 == 0x42 && b2 == 0x46 && b3 == 0x53 {
        Some(Format::Wbfs)
    } else if b0 == 0x57 && b1 == 0x49 && b2 == 0x41 && b3 == 0x01 {
        Some(Format::Wia)
    } else if b0 == 0x52 && b1 == 0x56 && b2 == 0x5A && b3 == 0x01 {
        Some(Format::Rvz)
    } else if read_u32_le(data, 0) == 0xB10BC001 {
        Some(Format::Gcz)
    } else if b0 == 0x45 && b1 == 0x47 && b2 == 0x47 && b3 == 0x53 {
        Some(Format::Nfs)
    } else if n >= 0x20 && (crate::util::read_u32_be(data, 0x18) == crate::common::WII_MAGIC
        || crate::util::read_u32_be(data, 0x1C) == crate::common::GCN_MAGIC) {
        Some(Format::Iso)
    } else {
        None
    }
}

/// A CISO header is acceptable: the fixed header is all there and the block
/// size is a positive multiple of the sector size.
pub open spec fn ciso_ok(s: Seq<u8>) -> bool {
    &&& s.len() >= CISO_HEADER_SIZE
    &&& le32(s, 4) >= 2048
    &&& le32(s, 4) % 2048 == 0
}

/// A WBFS head block is acceptable: the fixed fields are there, both sector
/// size exponents are sane, the disc table names a disc, and the named
/// disc's block table is all there.
pub open spec fn wbfs_ok(s: Seq<u8>) -> bool {
    &&& s.len() >= 12
    &&& 9 <= s[8] <= 16
    &&& 17 <= s[9] <= 30
    &&& s.len() >= pow2_spec(s[8] as nat)
    &&& wbfs_slot(s) < pow2_spec(s[8] as nat) - 12
    &&& s.len() >= wbfs_info_off(s) + 0x100 + 2 * wbfs_wlba_count(s)
}

/// `2^e`.
pub open spec fn pow2_spec(e: nat) -> int
    decreases e,
{
    if e == 0 {
        1
    } else {
        2 * pow2_spec((e - 1) as nat)
    }
}

/// The first disc slot marked used in the disc table, as an offset from the
/// table start; the table's length when none is.
pub open spec fn wbfs_slot_from(s: Seq<u8>, i: int, end: int) -> int
    decreases end - i,
{
    if i < 0 || i >= end {
        end
    } else if s[12 + i] != 0 {
        i
    } else {
        wbfs_slot_from(s, i + 1, end)
    }
}

/// The used disc slot of the head block.
pub open spec fn wbfs_slot(s: Seq<u8>) -> int {
    wbfs_slot_from(s, 0, pow2_spec(s[8] as nat) - 12)
}

/// Entries in a per-disc block table: one per WBFS sector of a single-layer
/// disc.
pub open spec fn wbfs_wlba_count(s: Seq<u8>) -> int {
    (SL_DVD_SIZE + pow2_spec(s[9] as nat) - 1) / pow2_spec(s[9] as nat)
}

/// `x` rounded up to a multiple of `a`.
pub open spec fn align_up(x: int, a: int) -> int {
    ((x + a - 1) / a) * a
}

/// Offset of the used disc's information record: disc records follow the
/// head sector, each holding a disc-header copy and the block table, padded
/// to whole head sectors.
pub open spec fn wbfs_info_off(s: Seq<u8>) -> int {
    pow2_spec(s[8] as nat) + wbfs_slot(s) * align_up(0x100 + 2 * wbfs_wlba_count(s), pow2_spec(s[8] as nat))
}

/// The metadata fields reflect the NKit sidecar merge: with a sidecar, the
/// image is lossless exactly when both size and junk bits are present, hash
/// recovery is needed exactly when junk bits are present, and the sidecar's
/// size and hashes are surfaced; without one, none of that is claimed.
pub open spec fn meta_reflects_nkit(meta: DiscMeta, nkit: Option<NKitHeader>) -> bool {
    match nkit {
        Some(h) => {
            &&& meta.lossless == (h.size is Some && h.junk_bits is Some)
            &&& meta.needs_hash_recovery == (h.junk_bits is Some)
            &&& meta.disc_size == h.size
            &&& meta.crc32 == h.crc32
            &&& (meta.md5 is Some <==> h.md5 is Some)
            &&& (meta.md5 is Some ==> meta.md5->0@ == h.md5->0@)
            &&& (meta.sha1 is Some <==> h.sha1 is Some)
            &&& (meta.sha1 is Some ==> meta.sha1->0@ == h.sha1->0@)
            &&& meta.xxhash64 == h.xxhash64
        },
        None => {
            &&& !meta.lossless
            &&& !meta.needs_hash_recovery
            &&& meta.disc_size is None
            &&& meta.crc32 is None
            &&& meta.md5 is None
            &&& meta.sha1 is None
            &&& meta.xxhash64 is None
        },
    }
}

/// Where a CISO container's stored blocks end: the sidecar, when present,
/// follows them.
pub open spec fn ciso_stored_end(s: Seq<u8>) -> int {
    CISO_HEADER_SIZE + count_present(s.subrange(8, 8 + CISO_MAP_SIZE as int), CISO_MAP_SIZE as int)
        * le32(s, 4)
}

/// A CISO container carries an NKit sidecar: bytes follow the stored blocks
/// and parse as a header with a junk bitmap.
pub open spec fn ciso_has_nkit(s: Seq<u8>) -> bool {
    &&& ciso_stored_end(s) < s.len()
    &&& has_nkit_magic(s.subrange(ciso_stored_end(s), s.len() as int))
    &&& crate::nkit::nkit_parses(
        s.subrange(ciso_stored_end(s), s.len() as int),
        le32(s, 4) as u32,
        true,
    )
}

/// A WBFS container carries an NKit sidecar at its fixed offset.
pub open spec fn wbfs_has_nkit(s: Seq<u8>) -> bool {
    &&& WBFS_NKIT_OFFSET < s.len()
    &&& has_nkit_magic(s.subrange(WBFS_NKIT_OFFSET as int, s.len() as int))
    &&& crate::nkit::nkit_parses(
        s.subrange(WBFS_NKIT_OFFSET as int, s.len() as int),
        pow2_spec(s[9] as nat) as u32,
        true,
    )
}

/// The buffer starts with the sidecar's four magic bytes.
pub open spec fn has_nkit_magic(s: Seq<u8>) -> bool {
    s.len() >= 4 && s[0] == 0x4E && s[1] == 0x4B && s[2] == 0x49 && s[3] == 0x54
}

/// Whether `open` accepts the container.
pub open spec fn open_ok(s: Seq<u8>) -> bool {
    match spec_detect(s) {
        Some(Format::Iso) => true,
        Some(Format::Ciso) => ciso_ok(s),
        Some(Format::Wbfs) => wbfs_ok(s),
        _ => false,
    }
}

/// Opens a container image: detects the format, parses its block mapping,
/// probes for an NKit sidecar (WBFS and CISO), and folds the sidecar into
/// the metadata. Unknown magic and the compressed or multi-file formats are
/// rejected.
pub fn open(data: Vec<u8>) -> (r: Result<BlockProvider>)
    ensures
        r is Ok <==> open_ok(data@),
        r is Ok ==> (r->Ok_0).wf() && (r->Ok_0).data@ == data@ && (r->Ok_0).meta.format
            == spec_detect(data@)->0,
        r is Ok && spec_detect(data@) == Some(Format::Iso) ==> (r->Ok_0).kind is Iso && (
        r->Ok_0).meta.disc_size == Some(data@.len() as u64) && (r->Ok_0).nkit is None,
        r is Ok && spec_detect(data@) == Some(Format::Ciso) ==> meta_reflects_nkit(
            (r->Ok_0).meta,
            (r->Ok_0).nkit,
        ) && ((r->Ok_0).nkit is Some <==> ciso_has_nkit(data@)),
        r is Ok && spec_detect(data@) == Some(Format::Wbfs) ==> meta_reflects_nkit(
            (r->Ok_0).meta,
            (r->Ok_0).nkit,
        ) && ((r->Ok_0).nkit is Some <==> wbfs_has_nkit(data@)),
{
    let n = data.len();
    match detect(data.as_slice()) {
        Some(Format::Iso) => Ok(open_iso(data)),
        Some(Format::Ciso) => open_ciso(data),
        Some(Format::Wbfs) => open_wbfs(data),
        Some(Format::Wia) => Err(Error::DiscFormat(
            "WIA containers are not supported here".to_owned(),
        )),
        Some(Format::Rvz) => Err(Error::DiscFormat(
            "RVZ containers are not supported here".to_owned(),
        )),
        Some(Format::Gcz) => Err(Error::DiscFormat(
            "GCZ containers are not supported here".to_owned(),
        )),
        Some(Format::Nfs) => Err(Error::DiscFormat(
            "NFS containers are not supported here".to_owned(),
        )),
        None => Err(Error::DiscFormat("unknown container format".to_owned())),
    }
}

/// Fills the junk-pattern seed from the disc header that the provider itself
/// presents at the start of the logical disc.
fn fill_junk_seed(bp: &mut BlockProvider)
    requires
        old(bp).wf(),
    ensures
        final(bp).wf(),
        final(bp).data@ == old(bp).data@,
        final(bp).kind == old(bp).kind,
        final(bp).nkit == old(bp).nkit,
        final(bp).meta == old(bp).meta,
        final(bp).block_size == old(bp).block_size,
{
    let sector0 = bp.read_sector(0);
    bp.junk_id = crate::util::copy_range(sector0.as_slice(), 0, 4);
    bp.disc_num = sector0[6];
}

/// Opens a raw ISO image: a pass-through mapping with 32 KiB blocks.
fn open_iso(data: Vec<u8>) -> (r: BlockProvider)
    ensures
        r.wf(),
        r.data@ == data@,
        r.kind is Iso,
        r.meta.format == Format::Iso,
        r.meta.disc_size == Some(data@.len() as u64),
        r.nkit is None,
        r.block_size == 0x8000,
{
    let len = data.len() as u64;
    let mut bp = BlockProvider {
        data,
        kind: BlockMap::Iso,
        nkit: None,
        junk_id: crate::util::zero_vec(4),
        disc_num: 0,
        block_size: 0x8000,
        meta: DiscMeta {
            format: Format::Iso,
            compression: Compression::NoCompression,
            block_size: Some(0x8000),
            lossless: true,
            needs_hash_recovery: false,
            crc32: None,
            md5: None,
            sha1: None,
            xxhash64: None,
            disc_size: Some(len),
        },
    };
    fill_junk_seed(&mut bp);
    bp
}

/// Opens a CISO image: reads the block size and the presence map, locates
/// the stored blocks by rank, and probes for an NKit sidecar appended after
/// the stored blocks.
fn open_ciso(data: Vec<u8>) -> (r: Result<BlockProvider>)
    requires
        spec_detect(data@) == Some(Format::Ciso),
    ensures
        r is Ok <==> ciso_ok(data@),
        r is Ok ==> (r->Ok_0).wf() && (r->Ok_0).data@ == data@ && (r->Ok_0).meta.format
            == Format::Ciso,
        r is Ok ==> (r->Ok_0).block_size == le32(data@, 4) && (match (r->Ok_0).kind {
            BlockMap::Ciso { map, .. } => map@ == data@.subrange(8, 8 + CISO_MAP_SIZE as int),
            _ => false,
        }),
        r is Ok ==> ((r->Ok_0).nkit is Some <==> ciso_has_nkit(data@)),
        r is Ok && (r->Ok_0).nkit is Some ==> crate::nkit::is_nkit_header(
            (r->Ok_0).nkit->0,
            data@.subrange(ciso_stored_end(data@), data@.len() as int),
            le32(data@, 4) as u32,
            true,
        ),
        r is Ok ==> meta_reflects_nkit((r->Ok_0).meta, (r->Ok_0).nkit),
{
    let n = data.len();
    if n < CISO_HEADER_SIZE {
        return Err(Error::DiscFormat("CISO header too short".to_owned()));
    }
    let bs = read_u32_le(data.as_slice(), 4);
    if bs < 2048 || bs % 2048 != 0 {
        return Err(Error::DiscFormat("CISO block size not sector-aligned".to_owned()));
    }
    let map = crate::util::copy_range(data.as_slice(), 8, CISO_MAP_SIZE);
    let mut rank: Vec<u32> = Vec::new();
    let mut cnt: u32 = 0;
    let mut i: usize = 0;
    while i < CISO_MAP_SIZE
        invariant
            i <= CISO_MAP_SIZE,
            rank@.len() == i,
            map@.len() == CISO_MAP_SIZE,
            cnt == count_present(map@, i as int),
            cnt <= i,
            forall|j: int| 0 <= j < i ==> rank@[j] == count_present(map@, j),
        decreases CISO_MAP_SIZE - i,
    {
        rank.push(cnt);
        if map[i] != 0 {
            cnt = cnt + 1;
        }
        i = i + 1;
    }
    proof {
        assert(cnt as int * bs as int <= 0x7FF8 * 0x100000000) by (nonlinear_arith)
            requires
                0 <= cnt <= 0x7FF8,
                0 < bs <= 0x100000000,
        ;
    }
    let stored_end: u64 = CISO_HEADER_SIZE as u64 + cnt as u64 * bs as u64;
    let nkit: Option<NKitHeader> = if stored_end < n as u64 {
        let tail = crate::util::copy_range(
            data.as_slice(),
            stored_end as usize,
            n - stored_end as usize,
        );
        proof {
            assert(stored_end == ciso_stored_end(data@)) by {
                assert(map@ =~= data@.subrange(8, 8 + CISO_MAP_SIZE as int));
            }
            assert(tail@ =~= data@.subrange(ciso_stored_end(data@), data@.len() as int));
        }
        NKitHeader::try_read_from(tail.as_slice(), bs, true)
    } else {
        proof {
            assert(stored_end == ciso_stored_end(data@)) by {
                assert(map@ =~= data@.subrange(8, 8 + CISO_MAP_SIZE as int));
            }
        }
        None
    };
    let mut meta = DiscMeta {
        format: Format::Ciso,
        compression: Compression::NoCompression,
        block_size: Some(bs),
        lossless: false,
        needs_hash_recovery: false,
        crc32: None,
        md5: None,
        sha1: None,
        xxhash64: None,
        disc_size: None,
    };
    if let Some(h) = &nkit {
        h.apply(&mut meta);
    }
    let mut bp = BlockProvider {
        data,
        kind: BlockMap::Ciso { map, rank },
        nkit,
        junk_id: crate::util::zero_vec(4),
        disc_num: 0,
        block_size: bs,
        meta,
    };
    fill_junk_seed(&mut bp);
    Ok(bp)
}

/// Computes `2^e`.
fn pow2_u64(e: u8) -> (r: u64)
    requires
        e < 40,
    ensures
        r == pow2_spec(e as nat),
        r >= 1,
{
    let mut v: u64 = 1;
    let mut i: u8 = 0;
    while i < e
        invariant
            i <= e < 40,
            v == pow2_spec(i as nat),
            v >= 1,
            v <= 0x10000000000,
        decreases e - i,
    {
        proof {
            lemma_pow2_bound(i as nat);
        }
        v = v * 2;
        i = i + 1;
    }
    v
}

/// `2^e` is positive.
proof fn lemma_pow2_pos(e: nat)
    ensures
        pow2_spec(e) >= 1,
    decreases e,
{
    if e > 0 {
        lemma_pow2_pos((e - 1) as nat);
    }
}

/// `2^e` grows with `e`.
proof fn lemma_pow2_mono(a: nat, b: nat)
    requires
        a <= b,
    ensures
        pow2_spec(a) <= pow2_spec(b),
    decreases b,
{
    lemma_pow2_pos(a);
    if a < b {
        lemma_pow2_mono(a, (b - 1) as nat);
        lemma_pow2_pos((b - 1) as nat);
    }
}

/// `2^e` stays within the addressable range for small exponents.
proof fn lemma_pow2_bound(e: nat)
    requires
        e < 40,
    ensures
        pow2_spec(e) <= 0x8000000000,
        pow2_spec(e) >= 1,
{
    lemma_pow2_pos(e);
    lemma_pow2_mono(e, 39);
    lemma_pow2_values();
}

/// The concrete powers of two that the WBFS field bounds rest on.
proof fn lemma_pow2_values()
    ensures
        pow2_spec(9) == 512,
        pow2_spec(12) == 4096,
        pow2_spec(17) == 0x20000,
        pow2_spec(16) == 0x10000,
        pow2_spec(30) == 0x40000000,
        pow2_spec(39) == 0x8000000000,
{
    reveal_with_fuel(pow2_spec, 41);
}

/// Opens a WBFS container: parses the head block, picks the first used disc
/// slot, reads that disc's block table, and probes for an NKit sidecar at
/// its fixed offset.
fn open_wbfs(data: Vec<u8>) -> (r: Result<BlockProvider>)
    requires
        spec_detect(data@) == Some(Format::Wbfs),
    ensures
        r is Ok <==> wbfs_ok(data@),
        r is Ok ==> (r->Ok_0).wf() && (r->Ok_0).data@ == data@ && (r->Ok_0).meta.format
            == Format::Wbfs,
        r is Ok ==> (r->Ok_0).block_size == pow2_spec(data@[9] as nat) && (match (r->Ok_0).kind {
            BlockMap::Wbfs { wlba } => {
                &&& wlba@.len() == wbfs_wlba_count(data@)
                &&& forall|j: int|
                    0 <= j < wlba@.len() ==> wlba@[j] as int == crate::util::be16(
                        data@,
                        wbfs_info_off(data@) + 0x100 + 2 * j,
                    )
            },
            _ => false,
        }),
        r is Ok ==> ((r->Ok_0).nkit is Some <==> wbfs_has_nkit(data@)),
        r is Ok && (r->Ok_0).nkit is Some ==> crate::nkit::is_nkit_header(
            (r->Ok_0).nkit->0,
            data@.subrange(WBFS_NKIT_OFFSET as int, data@.len() as int),
            pow2_spec(data@[9] as nat) as u32,
            true,
        ),
        r is Ok ==> meta_reflects_nkit((r->Ok_0).meta, (r->Ok_0).nkit),
{
    let n = data.len();
    if n < 12 {
        return Err(Error::DiscFormat("WBFS head block too short".to_owned()));
    }
    let hd_s = read_u8(data.as_slice(), 8);
    let wbfs_s = read_u8(data.as_slice(), 9);
    if hd_s < 9 || hd_s > 16 {
        return Err(Error::DiscFormat("WBFS head sector size out of range".to_owned()));
    }
    if wbfs_s < 17 || wbfs_s > 30 {
        return Err(Error::DiscFormat("WBFS block size out of range".to_owned()));
    }
    let hd_sec_sz = pow2_u64(hd_s);
    let bs64 = pow2_u64(wbfs_s);
    proof {
        lemma_pow2_mod2048(wbfs_s as nat);
        lemma_pow2_values();
        lemma_pow2_mono(9, hd_s as nat);
        lemma_pow2_mono(hd_s as nat, 16);
        lemma_pow2_mono(17, wbfs_s as nat);
        lemma_pow2_mono(wbfs_s as nat, 30);
    }
    let bs = bs64 as u32;
    if (n as u64) < hd_sec_sz {
        return Err(Error::DiscFormat("WBFS head block too short".to_owned()));
    }
    // Find the first used disc slot.
    let table_len = (hd_sec_sz - 12) as usize;
    let mut slot: usize = 0;
    while slot < table_len && data[12 + slot] == 0
        invariant
            slot <= table_len,
            table_len <= 0x10000,
            12 + table_len <= data@.len(),
            wbfs_slot_from(data@, 0, table_len as int) == wbfs_slot_from(
                data@,
                slot as int,
                table_len as int,
            ),
        decreases table_len - slot,
    {
        slot = slot + 1;
    }
    if slot == table_len {
        return Err(Error::DiscFormat("WBFS container holds no disc".to_owned()));
    }
    proof {
        assert(wbfs_slot(data@) == slot);
    }
    // Locate the disc record and read its block table.
    proof {
        vstd::arithmetic::div_mod::lemma_div_is_ordered_by_denominator(
            SL_DVD_SIZE + bs64 - 1,
            0x20000,
            bs64 as int,
        );
    }
    let wlba_count = ((SL_DVD_SIZE + bs64 - 1) / bs64) as usize;
    proof {
        assert(wlba_count <= 0x10000);
    }
    let info_sz = 0x100 + 2 * wlba_count as u64;
    proof {
        vstd::arithmetic::div_mod::lemma_fundamental_div_mod(
            info_sz + hd_sec_sz - 1,
            hd_sec_sz as int,
        );
        vstd::arithmetic::div_mod::lemma_mod_bound(info_sz + hd_sec_sz - 1, hd_sec_sz as int);
        assert(((info_sz + hd_sec_sz - 1) as int / hd_sec_sz as int) * hd_sec_sz as int <= info_sz
            + hd_sec_sz - 1);
    }
    let info_sz_aligned = ((info_sz + hd_sec_sz - 1) / hd_sec_sz) * hd_sec_sz;
    proof {
        assert(slot as int * info_sz_aligned as int <= 0x10000 * 0x400000) by (nonlinear_arith)
            requires
                0 <= slot <= 0x10000,
                0 <= info_sz_aligned <= 0x400000,
        ;
    }
    let info_off = hd_sec_sz + slot as u64 * info_sz_aligned;
    proof {
        assert(info_off + 0x100 + 2 * wlba_count == wbfs_info_off(data@) + 0x100 + 2
            * wbfs_wlba_count(data@)) by {
            assert(wbfs_wlba_count(data@) == wlba_count);
            assert(align_up(0x100 + 2 * wlba_count as int, hd_sec_sz as int) == info_sz_aligned);
        }
    }
    if (n as u64) < info_off + 0x100 + 2 * wlba_count as u64 {
        return Err(Error::DiscFormat("WBFS disc block table out of bounds".to_owned()));
    }
    proof {
        assert(info_off + 0x100 <= n as u64);
    }
    let table_base = (info_off + 0x100) as usize;
    let mut wlba: Vec<u16> = Vec::new();
    let mut i: usize = 0;
    while i < wlba_count
        invariant
            i <= wlba_count,
            wlba_count <= 0x10000,
            n == data@.len(),
            table_base + 2 * wlba_count <= n,
            wlba@.len() == i,
            forall|j: int|
                0 <= j < i ==> wlba@[j] as int == crate::util::be16(
                    data@,
                    table_base + 2 * j,
                ),
        decreases wlba_count - i,
    {
        wlba.push(read_u16_be(data.as_slice(), table_base + 2 * i));
        i = i + 1;
    }
    // NKit sidecar at its fixed offset.
    let nkit: Option<NKitHeader> = if (WBFS_NKIT_OFFSET as u64) < n as u64 {
        let tail = crate::util::copy_range(
            data.as_slice(),
            WBFS_NKIT_OFFSET,
            n - WBFS_NKIT_OFFSET,
        );
        proof {
            assert(tail@ =~= data@.subrange(WBFS_NKIT_OFFSET as int, data@.len() as int));
        }
        NKitHeader::try_read_from(tail.as_slice(), bs, true)
    } else {
        None
    };
    let mut meta = DiscMeta {
        format: Format::Wbfs,
        compression: Compression::NoCompression,
        block_size: Some(bs),
        lossless: false,
        needs_hash_recovery: false,
        crc32: None,
        md5: None,
        sha1: None,
        xxhash64: None,
        disc_size: None,
    };
    if let Some(h) = &nkit {
        h.apply(&mut meta);
    }
    let mut bp = BlockProvider {
        data,
        kind: BlockMap::Wbfs { wlba },
        nkit,
        junk_id: crate::util::zero_vec(4),
        disc_num: 0,
        block_size: bs,
        meta,
    };
    fill_junk_seed(&mut bp);
    Ok(bp)
}

/// Powers of two from `2^11` on are multiples of the sector size.
proof fn lemma_pow2_mod2048(e: nat)
    requires
        e >= 11,
    ensures
        pow2_spec(e) % 2048 == 0,
        pow2_spec(e) >= 2048,
    decreases e,
{
    if e == 11 {
        assert(pow2_spec(11) == 2048) by {
            reveal_with_fuel(pow2_spec, 12);
        }
    } else {
        lemma_pow2_mod2048((e - 1) as nat);
        let p = pow2_spec((e - 1) as nat);
        assert(p % 2048 == 0);
        assert((2 * p) % 2048 == 0) by (nonlinear_arith)
            requires
                p % 2048 == 0,
                p >= 2048,
        ;
    }
}


/// For a raw ISO container, every logical disc byte inside the file is the
/// file's byte at the same offset, and every byte past its end is zero: the
/// logical disc a provider presents is the reference image itself.
pub proof fn lemma_iso_passthrough(bp: &BlockProvider, o: int)
    requires
        bp.wf(),
        bp.kind is Iso,
        o >= 0,
    ensures
        bp.byte_at(o) == (if o < bp.data@.len() {
            bp.data@[o]
        } else {
            0u8
        }),
{
    let bs = bp.block_size as int;
    vstd::arithmetic::div_mod::lemma_fundamental_div_mod(o, bs);
    vstd::arithmetic::div_mod::lemma_mod_bound(o, bs);
    vstd::arithmetic::div_mod::lemma_div_pos_is_pos(o, bs);
    assert(bs * (o / bs) == (o / bs) * bs) by (nonlinear_arith);
    assert(bp.stored_off(o / bs) + o % bs == o);
}

/// Junk-bit determinism: two containers of the same title (same disc id and
/// disc number) and the same block size synthesize byte-identical junk for
/// any block both flag as junk, wherever neither stores the block.
pub proof fn lemma_junk_deterministic(a: &BlockProvider, b: &BlockProvider, o: int)
    requires
        a.wf(),
        b.wf(),
        a.junk_id@ == b.junk_id@,
        a.disc_num == b.disc_num,
        a.block_size == b.block_size,
        !a.present(o / a.block_size as int),
        !b.present(o / b.block_size as int),
        a.junk_flag(o / a.block_size as int),
        b.junk_flag(o / b.block_size as int),
    ensures
        a.byte_at(o) == b.byte_at(o),
{
}

} // verus!
