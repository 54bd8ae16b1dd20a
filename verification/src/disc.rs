//! The disc reader: composes a block provider with a logical cursor, exposes
//! the disc as one seekable byte stream, and discovers the Wii partition
//! table at open time.

use vstd::prelude::*;

use crate::{Error, Result};
use crate::block::{read_bytes_at, BlockMap, BlockProvider};
use crate::util::be32;
use crate::common::{
    is_disc_header_at, DiscHeader, PartitionHeader, PartitionInfo, PartitionKind, SECTOR_SIZE,
};

verus! {

/// Byte offset of the Wii volume group table.
pub const VOLUME_GROUP_TABLE_OFF: usize = 0x40000;

/// The largest logical disc this reader addresses.
pub const MAX_DISC_SIZE: u64 = 0x10000000000;

/// The 32-bit big-endian value at logical disc offset `o`.
pub open spec fn disc_be32(bp: &BlockProvider, o: int) -> int {
    bp.byte_at(o) * 0x1000000 + bp.byte_at(o + 1) * 0x10000 + bp.byte_at(o + 2) * 0x100 + bp.byte_at(
        o + 3,
    )
}

/// The number of partitions that volume group `g` declares.
pub open spec fn group_count(bp: &BlockProvider, g: int) -> int {
    disc_be32(bp, VOLUME_GROUP_TABLE_OFF + g * 8)
}

/// The byte offset of volume group `g`'s partition entry array.
pub open spec fn group_table_off(bp: &BlockProvider, g: int) -> int {
    disc_be32(bp, VOLUME_GROUP_TABLE_OFF + g * 8 + 4) * 4
}

/// `info` describes entry `j` of volume group `g`: the entry gives the
/// partition's byte offset (stored shifted right by 2) and its type; the
/// partition header at that offset places the encrypted data area.
pub open spec fn is_partition_at(bp: &BlockProvider, info: PartitionInfo, g: int, j: int) -> bool {
    let entry = group_table_off(bp, g) + j * 8;
    let part_off = disc_be32(bp, entry) * 4;
    let header = spec_partition_header_at(bp, part_off);
    &&& info.kind == PartitionKind::spec_from_u32(disc_be32(bp, entry + 4) as u32)
    &&& info.start_sector == part_off / SECTOR_SIZE as int
    &&& info.header == header
    &&& info.data_start_sector == (part_off + header.data_off) / SECTOR_SIZE as int
    &&& info.data_end_sector == (part_off + header.data_off + header.data_size) / SECTOR_SIZE as int
}

/// The partition header whose ticket begins at logical disc offset `off`.
pub open spec fn spec_partition_header_at(bp: &BlockProvider, off: int) -> PartitionHeader {
    PartitionHeader {
        tmd_size: disc_be32(bp, off + 0x2A4) as u32,
        tmd_off: (disc_be32(bp, off + 0x2A8) * 4) as u64,
        cert_chain_size: disc_be32(bp, off + 0x2AC) as u32,
        cert_chain_off: (disc_be32(bp, off + 0x2B0) * 4) as u64,
        h3_table_off: (disc_be32(bp, off + 0x2B4) * 4) as u64,
        data_off: (disc_be32(bp, off + 0x2B8) * 4) as u64,
        data_size: (disc_be32(bp, off + 0x2BC) * 4) as u64,
    }
}

/// The data-end byte offset that table entry `j` of volume group `g`
/// declares, rounded to whole sectors.
pub open spec fn entry_end_bytes(bp: &BlockProvider, g: int, j: int) -> int {
    let entry = group_table_off(bp, g) + j * 8;
    let part_off = disc_be32(bp, entry) * 4;
    let header = spec_partition_header_at(bp, part_off);
    ((part_off + header.data_off + header.data_size) / 2048) * 2048
}

/// The largest declared data end among the first `j` entries of group `g`.
pub open spec fn group_end(bp: &BlockProvider, g: int, j: int) -> int
    decreases j,
{
    if j <= 0 {
        0
    } else {
        let rest = group_end(bp, g, j - 1);
        let e = entry_end_bytes(bp, g, j - 1);
        if e > rest {
            e
        } else {
            rest
        }
    }
}

/// The largest declared data end among the first `g` volume groups.
pub open spec fn table_end(bp: &BlockProvider, g: int) -> int
    decreases g,
{
    if g <= 0 {
        0
    } else {
        let rest = table_end(bp, g - 1);
        let e = group_end(bp, g - 1, group_count(bp, g - 1));
        if e > rest {
            e
        } else {
            rest
        }
    }
}

/// The disc carries the Wii magic at offset 0x18.
pub open spec fn is_wii_disc(bp: &BlockProvider) -> bool {
    disc_be32(bp, 0x18) == crate::common::WII_MAGIC
}

/// The largest data-end byte among the first `i` partitions.
pub open spec fn parts_end(parts: Seq<PartitionInfo>, i: int) -> int
    decreases i,
{
    if i <= 0 {
        0
    } else {
        let rest = parts_end(parts, i - 1);
        let e = parts[i - 1].data_end_sector * 2048;
        if e > rest {
            e
        } else {
            rest
        }
    }
}

/// `parts_end` over a prefix ignores what follows it.
proof fn lemma_parts_end_frame(a: Seq<PartitionInfo>, b: Seq<PartitionInfo>)
    requires
        a =~= b.subrange(0, b.len() - 1),
        b.len() >= 1,
    ensures
        parts_end(b, b.len() as int) == (if b.last().data_end_sector * 2048 > parts_end(
            a,
            a.len() as int,
        ) {
            b.last().data_end_sector * 2048 as int
        } else {
            parts_end(a, a.len() as int)
        }),
{
    lemma_parts_end_prefix(a, b, a.len() as int);
}

/// `parts_end` of the first `i` entries agrees between a sequence and any
/// extension of it.
proof fn lemma_parts_end_prefix(a: Seq<PartitionInfo>, b: Seq<PartitionInfo>, i: int)
    requires
        a =~= b.subrange(0, b.len() - 1),
        b.len() >= 1,
        i <= a.len(),
    ensures
        parts_end(a, i) == parts_end(b, i),
    decreases i,
{
    if i > 0 {
        lemma_parts_end_prefix(a, b, i - 1);
        assert(a[i - 1] == b[i - 1]);
    }
}

/// The container's own size: the stored metadata size, or the mapped extent.
pub open spec fn spec_base_size(bp: &BlockProvider) -> int {
    match bp.meta.disc_size {
        Some(s) => s as int,
        None => spec_extent(bp),
    }
}

/// The disc size: the container's own size or the partitions' structural
/// end, whichever is larger.
pub open spec fn spec_disc_size(bp: &BlockProvider, parts: Seq<PartitionInfo>) -> int {
    let b = spec_base_size(bp);
    let e = parts_end(parts, parts.len() as int);
    if e > b {
        e
    } else {
        b
    }
}

/// A disc reader opens over the provider exactly when every volume group of
/// a Wii disc declares at most 256 partitions and the disc size stays in the
/// addressable range.
pub open spec fn reader_accepts(bp: &BlockProvider) -> bool {
    &&& (is_wii_disc(bp) ==> forall|g: int| 0 <= g < 4 ==> group_count(bp, g) <= 256)
    &&& spec_base_size(bp) <= MAX_DISC_SIZE
    &&& (is_wii_disc(bp) ==> table_end(bp, 4) <= MAX_DISC_SIZE)
}

/// An open disc image: the block provider, the parsed disc header, the
/// discovered partitions, and the stream cursor.
pub struct DiscReader {
    /// The block provider for the container.
    pub provider: BlockProvider,
    /// The disc's primary header.
    pub header: DiscHeader,
    /// The Wii partitions (empty for GameCube).
    pub partitions: Vec<PartitionInfo>,
    /// The stream cursor, in bytes from the start of the logical disc.
    pub pos: u64,
    /// The disc's size in bytes.
    pub size: u64,
}

impl DiscReader {
    /// Reader well-formedness: the provider is sound and the size is within
    /// the addressable range.
    pub open spec fn wf(&self) -> bool {
        &&& self.provider.wf()
        &&& self.size <= MAX_DISC_SIZE
    }

    /// Byte `o` of the logical disc.
    pub open spec fn byte_at(&self, o: int) -> u8 {
        self.provider.byte_at(o)
    }

    /// Opens a disc reader over a block provider: parses the disc header,
    /// discovers Wii partitions, and sizes the stream. Fails exactly when a
    /// volume group declares more partitions than the table region can hold,
    /// or the disc would exceed the addressable range.
    pub fn new(provider: BlockProvider) -> (r: Result<DiscReader>)
        requires
            provider.wf(),
        ensures
            r is Ok <==> reader_accepts(&provider),
            r is Ok ==> (r->Ok_0).size == spec_disc_size(&provider, (r->Ok_0).partitions@),
            r is Ok ==> (r->Ok_0).wf(),
            r is Ok ==> (r->Ok_0).provider == provider,
            r is Ok ==> (r->Ok_0).pos == 0,
            r is Ok ==> is_disc_header_at((r->Ok_0).header, header_bytes(&provider), 0),
            r is Ok && be32(header_bytes(&provider), 0x18) == crate::common::WII_MAGIC ==> (
            r->Ok_0).partitions@.len() == groups_total(&provider, 4),
            r is Ok && !(be32(header_bytes(&provider), 0x18) == crate::common::WII_MAGIC) ==> (
            r->Ok_0).partitions@.len() == 0,
            r is Ok ==> forall|i: int|
                0 <= i < (r->Ok_0).partitions@.len() ==> (r->Ok_0).partitions@[i].index == i
                    && (exists|g: int, j: int|
                    0 <= g < 4 && 0 <= j < group_count(&provider, g) && is_partition_at(
                        &provider,
                        (r->Ok_0).partitions@[i],
                        g,
                        j,
                    )),
    {
        let hdr_bytes = read_bytes_at(&provider, 0, 0x62);
        let header = DiscHeader::parse(hdr_bytes.as_slice(), 0);
        proof {
            assert(hdr_bytes@ =~= header_bytes(&provider));
            assert(header.wii_magic == disc_be32(&provider, 0x18));
        }
        let is_wii = header.is_wii();
        let partitions: Vec<PartitionInfo> = if is_wii {
            match parse_partitions(&provider) {
                Ok(p) => p,
                Err(e) => {
                    return Err(e);
                },
            }
        } else {
            Vec::new()
        };
        // The disc size: the stored or mapped size of the container, or the
        // structural end of the partitions, whichever is larger.
        let mut size: u64 = match provider.meta.disc_size {
            Some(s) => s,
            None => mapped_extent(&provider),
        };
        let ghost base = size as int;
        let mut i: usize = 0;
        while i < partitions.len()
            invariant
                i <= partitions@.len(),
                base == spec_base_size(&provider),
                size == (if parts_end(partitions@, i as int) > base {
                    parts_end(partitions@, i as int)
                } else {
                    base
                }),
            decreases partitions@.len() - i,
        {
            let endb = partitions[i].data_end_sector as u64 * 2048u64;
            if endb > size {
                size = endb;
            }
            i = i + 1;
        }
        proof {
            assert(size == spec_disc_size(&provider, partitions@));
            if is_wii {
                assert(parts_end(partitions@, partitions@.len() as int) == table_end(&provider, 4));
            } else {
                assert(parts_end(partitions@, 0) == 0);
            }
        }
        if size > MAX_DISC_SIZE {
            return Err(Error::DiscFormat("disc size out of addressable range".to_owned()));
        }
        Ok(DiscReader { provider, header, partitions, pos: 0, size })
    }

    /// The disc's primary header.
    pub fn header(&self) -> (r: &DiscHeader)
        ensures
            r == &self.header,
    {
        &self.header
    }

    /// The disc's size in bytes, or an estimate if not stored by the format.
    pub fn disc_size(&self) -> (r: u64)
        ensures
            r == self.size,
    {
        self.size
    }

    /// The discovered Wii partitions; empty for GameCube.
    pub fn partitions(&self) -> (r: &Vec<PartitionInfo>)
        ensures
            r == &self.partitions,
    {
        &self.partitions
    }

    /// Moves the stream cursor to `pos` (which may lie past the end; a later
    /// read then returns nothing).
    pub fn seek(&mut self, pos: u64) -> (r: u64)
        ensures
            *final(self) == (DiscReader { pos, ..*old(self) }),
            r == pos,
    {
        self.pos = pos;
        pos
    }

    /// The stream cursor.
    pub fn position(&self) -> (r: u64)
        ensures
            r == self.pos,
    {
        self.pos
    }

    /// Reads up to `n` bytes at the cursor: exactly byte `pos + k` of the
    /// logical disc for each `k`, short only at the end of the disc.
    pub fn read(&mut self, n: usize) -> (r: Vec<u8>)
        requires
            old(self).wf(),
        ensures
            final(self).wf(),
            r@.len() == (if old(self).pos + n <= old(self).size {
                n as int
            } else if old(self).pos <= old(self).size {
                old(self).size - old(self).pos
            } else {
                0
            }),
            forall|k: int| 0 <= k < r@.len() ==> r@[k] == old(self).byte_at(old(self).pos + k),
            *final(self) == (DiscReader { pos: (old(self).pos + r@.len()) as u64, ..*old(self) }),
    {
        if self.pos >= self.size {
            return Vec::new();
        }
        let take: usize = if self.size - self.pos < n as u64 {
            (self.size - self.pos) as usize
        } else {
            n
        };
        let out = read_bytes_at(&self.provider, self.pos, take);
        self.pos = self.pos + take as u64;
        out
    }

    /// Reads `len` bytes at `off` without moving the cursor.
    pub fn read_at(&self, off: u64, len: usize) -> (r: Vec<u8>)
        requires
            self.wf(),
            off + len < 0x40000000000,
        ensures
            r@.len() == len,
            forall|k: int| 0 <= k < len ==> r@[k] == self.byte_at(off + k),
    {
        read_bytes_at(&self.provider, off, len)
    }
}

/// The header region of the logical disc.
pub open spec fn header_bytes(bp: &BlockProvider) -> Seq<u8> {
    Seq::new(0x62, |i: int| bp.byte_at(i))
}

/// The number of partitions the volume groups before `g` declare.
pub open spec fn groups_total(bp: &BlockProvider, g: int) -> int
    decreases g,
{
    if g <= 0 {
        0
    } else {
        groups_total(bp, g - 1) + group_count(bp, g - 1)
    }
}

/// Reads the Wii volume group table and every partition entry it points to.
///
/// Fails exactly when some volume group declares more than 256 partitions;
/// otherwise every declared entry appears, in group order.
#[verifier::rlimit(100)]
fn parse_partitions(bp: &BlockProvider) -> (r: Result<Vec<PartitionInfo>>)
    requires
        bp.wf(),
    ensures
        r is Ok <==> forall|g: int| 0 <= g < 4 ==> group_count(bp, g) <= 256,
        r is Ok ==> (r->Ok_0)@.len() == groups_total(bp, 4),
        r is Ok ==> forall|i: int|
            0 <= i < (r->Ok_0)@.len() ==> (r->Ok_0)@[i].index == i && (exists|g: int, j: int|
                0 <= g < 4 && 0 <= j < group_count(bp, g) && is_partition_at(
                    bp,
                    (r->Ok_0)@[i],
                    g,
                    j,
                )),
        r is Ok ==> (r->Ok_0)@.len() <= 1024,
        r is Ok ==> parts_end((r->Ok_0)@, (r->Ok_0)@.len() as int) == table_end(bp, 4),
{
    let mut out: Vec<PartitionInfo> = Vec::new();
    let mut g: usize = 0;
    while g < 4
        invariant
            g <= 4,
            bp.wf(),
            out@.len() <= g * 256,
            out@.len() == groups_total(bp, g as int),
            parts_end(out@, out@.len() as int) == table_end(bp, g as int),
            forall|g2: int| 0 <= g2 < g ==> group_count(bp, g2) <= 256,
            forall|i: int|
                0 <= i < out@.len() ==> out@[i].index == i && (exists|g2: int, j: int|
                    0 <= g2 < 4 && 0 <= j < group_count(bp, g2) && is_partition_at(
                        bp,
                        out@[i],
                        g2,
                        j,
                    )),
        decreases 4 - g,
    {
        let ghost out0 = out@;
        let group_hdr = read_bytes_at(bp, (VOLUME_GROUP_TABLE_OFF + g * 8) as u64, 8);
        let count = crate::util::read_u32_be(group_hdr.as_slice(), 0);
        let table_off = crate::util::read_u32_be(group_hdr.as_slice(), 4) as u64 * 4;
        proof {
            assert(count as int == group_count(bp, g as int));
            assert(table_off as int == group_table_off(bp, g as int));
        }
        if count > 256 {
            return Err(Error::DiscFormat("volume group declares too many partitions".to_owned()));
        }
        let mut j: u32 = 0;
        while j < count
            invariant
                j <= count <= 256,
                bp.wf(),
                table_off as int == group_table_off(bp, g as int),
                count as int == group_count(bp, g as int),
                g < 4,
                out@.len() == out0.len() + j,
                parts_end(out0, out0.len() as int) == table_end(bp, g as int),
                parts_end(out@, out@.len() as int) == (if group_end(bp, g as int, j as int)
                    > table_end(bp, g as int) {
                    group_end(bp, g as int, j as int)
                } else {
                    table_end(bp, g as int)
                }),
                forall|i: int|
                    0 <= i < out@.len() ==> out@[i].index == i && (exists|g2: int, j2: int|
                        0 <= g2 < 4 && 0 <= j2 < group_count(bp, g2) && is_partition_at(
                            bp,
                            out@[i],
                            g2,
                            j2,
                        )),
                out0.len() <= g * 256,
            decreases count - j,
        {
            let entry_off = table_off + j as u64 * 8;
            let entry = read_bytes_at(bp, entry_off, 8);
            let part_off = crate::util::read_u32_be(entry.as_slice(), 0) as u64 * 4;
            let kind_raw = crate::util::read_u32_be(entry.as_slice(), 4);
            let hdr = read_bytes_at(bp, part_off, 0x2C0);
            let header = PartitionHeader::parse(hdr.as_slice(), 0);
            proof {
                assert(header == spec_partition_header_at(bp, part_off as int)) by {
                    assert forall|q: int| 0 <= q < 0x2C0 implies hdr@[q] == bp.byte_at(
                        part_off as int + q,
                    ) by {}
                }
            }
            let data_start = part_off + header.data_off;
            let data_end = data_start + header.data_size;
            let info = PartitionInfo {
                index: out.len(),
                kind: PartitionKind::from_u32(kind_raw),
                start_sector: (part_off / SECTOR_SIZE as u64) as u32,
                data_start_sector: (data_start / SECTOR_SIZE as u64) as u32,
                data_end_sector: (data_end / SECTOR_SIZE as u64) as u32,
                header,
            };
            proof {
                assert(is_partition_at(bp, info, g as int, j as int));
                assert(info.data_end_sector * 2048 == entry_end_bytes(bp, g as int, j as int));
            }
            let ghost prev_out = out@;
            out.push(info);
            proof {
                assert(prev_out =~= out@.subrange(0, out@.len() - 1));
                assert(parts_end(out@, out@.len() as int) == (if info.data_end_sector * 2048
                    > parts_end(prev_out, prev_out.len() as int) {
                    info.data_end_sector * 2048
                } else {
                    parts_end(prev_out, prev_out.len() as int)
                })) by {
                    lemma_parts_end_frame(prev_out, out@);
                }
            }
            j = j + 1;
        }
        g = g + 1;
    }
    Ok(out)
}

/// The number of blocks up to and including the last stored one.
pub open spec fn ciso_last_block(map: Seq<u8>, i: int) -> int
    decreases i,
{
    if i <= 0 {
        0
    } else if map[i - 1] != 0 {
        i
    } else {
        ciso_last_block(map, i - 1)
    }
}

/// The number of blocks up to and including the last mapped one.
pub open spec fn wbfs_last_block(wlba: Seq<u16>, i: int) -> int
    decreases i,
{
    if i <= 0 {
        0
    } else if wlba[i - 1] != 0 {
        i
    } else {
        wbfs_last_block(wlba, i - 1)
    }
}

/// The extent of the mapped blocks: how many bytes of logical disc the
/// container itself accounts for.
pub open spec fn spec_extent(bp: &BlockProvider) -> int {
    match bp.kind {
        BlockMap::Iso => bp.data@.len() as int,
        BlockMap::Ciso { map, .. } => ciso_last_block(map@, map@.len() as int)
            * bp.block_size as int,
        BlockMap::Wbfs { wlba } => wbfs_last_block(wlba@, wlba@.len() as int)
            * bp.block_size as int,
    }
}

/// Computes the mapped extent of the container.
fn mapped_extent(bp: &BlockProvider) -> (r: u64)
    requires
        bp.wf(),
    ensures
        r == spec_extent(bp),
{
    match &bp.kind {
        BlockMap::Iso => bp.data.len() as u64,
        BlockMap::Ciso { map, .. } => {
            let mut i: usize = map.len();
            while i > 0 && map[i - 1] == 0
                invariant
                    i <= map@.len(),
                    map@.len() == crate::block::CISO_MAP_SIZE,
                    ciso_last_block(map@, map@.len() as int) == ciso_last_block(map@, i as int),
                decreases i,
            {
                i = i - 1;
            }
            proof {
                assert(i as int * bp.block_size as int <= 0x7FF8 * 0x100000000) by (
                nonlinear_arith)
                    requires
                        0 <= i <= 0x7FF8,
                        0 < bp.block_size <= 0x100000000,
                ;
            }
            i as u64 * bp.block_size as u64
        },
        BlockMap::Wbfs { wlba } => {
            let mut i: usize = wlba.len();
            while i > 0 && wlba[i - 1] == 0
                invariant
                    i <= wlba@.len(),
                    wlba@.len() <= 0x10000,
                    wbfs_last_block(wlba@, wlba@.len() as int) == wbfs_last_block(wlba@, i as int),
                decreases i,
            {
                i = i - 1;
            }
            proof {
                assert(i as int * bp.block_size as int <= 0x10000 * 0x100000000) by (
                nonlinear_arith)
                    requires
                        0 <= i <= 0x10000,
                        0 < bp.block_size <= 0x100000000,
                ;
            }
            i as u64 * bp.block_size as u64
        },
    }
}

} // verus!
