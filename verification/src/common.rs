//! Shared disc types: container format tags, disc metadata, the disc header,
//! and per-partition information.

use vstd::prelude::*;

use crate::util::{be32, copy_range, read_u32_be, read_u8};

verus! {

/// Disc sector size in bytes.
pub const SECTOR_SIZE: usize = 2048;

/// Size in bytes of the disc header record (boot.bin).
pub const BOOT_SIZE: usize = 0x440;

/// Size in bytes of the debug and region information record (bi2.bin).
pub const BI2_SIZE: usize = 0x2000;

/// The container format of a disc image.
#[derive(Clone, Copy, Debug, PartialEq, Eq, Structural)]
pub enum Format {
    /// Raw ISO / GCM.
    Iso,
    /// CISO (compact ISO).
    Ciso,
    /// GCZ (Dolphin compressed GC/Wii image).
    Gcz,
    /// NFS (Wii U virtual console).
    Nfs,
    /// WBFS (Wii backup file system).
    Wbfs,
    /// WIA (Wii image archive).
    Wia,
    /// RVZ (Dolphin WIA successor).
    Rvz,
}

/// The compression kind applied inside a container.
#[derive(Clone, Copy, Debug, PartialEq, Eq, Structural)]
pub enum Compression {
    /// Not compressed.
    NoCompression,
    /// Purge (zero-run elision).
    Purge,
    /// Bzip2.
    Bzip2,
    /// LZMA.
    Lzma,
    /// LZMA2.
    Lzma2,
    /// Zstandard.
    Zstd,
    /// Deflate.
    Deflate,
}

/// Extra metadata included in the disc file format.
#[derive(Clone, Debug)]
pub struct DiscMeta {
    /// The container format.
    pub format: Format,
    /// The compression kind used inside the container.
    pub compression: Compression,
    /// The container's block size, if the format has one.
    pub block_size: Option<u32>,
    /// Whether the original disc image can be reconstructed bit-for-bit.
    pub lossless: bool,
    /// Whether the Wii partition hashes were stripped and must be rebuilt.
    pub needs_hash_recovery: bool,
    /// CRC-32 of the full disc image, when stored.
    pub crc32: Option<u32>,
    /// MD5 of the full disc image, when stored (16 bytes).
    pub md5: Option<Vec<u8>>,
    /// SHA-1 of the full disc image, when stored (20 bytes).
    pub sha1: Option<Vec<u8>>,
    /// XXH64 of the full disc image, when stored.
    pub xxhash64: Option<u64>,
    /// Size of the full disc image in bytes, when stored.
    pub disc_size: Option<u64>,
}

/// The kind of a Wii partition.
#[derive(Clone, Copy, Debug, PartialEq, Eq, Structural)]
pub enum PartitionKind {
    /// Game data partition.
    Data,
    /// System update partition.
    Update,
    /// Channel installer partition.
    Channel,
    /// Any other partition type value.
    Other(u32),
}

impl PartitionKind {
    /// The partition kind stored as `v` in the partition table.
    pub open spec fn spec_from_u32(v: u32) -> PartitionKind {
        if v == 0 {
            PartitionKind::Data
        } else if v == 1 {
            PartitionKind::Update
        } else if v == 2 {
            PartitionKind::Channel
        } else {
            PartitionKind::Other(v)
        }
    }

    /// Maps the stored partition type value to its kind.
    pub fn from_u32(v: u32) -> (r: PartitionKind)
        ensures
            r == PartitionKind::spec_from_u32(v),
    {
        if v == 0 {
            PartitionKind::Data
        } else if v == 1 {
            PartitionKind::Update
        } else if v == 2 {
            PartitionKind::Channel
        } else {
            PartitionKind::Other(v)
        }
    }

    /// The extraction directory name for this partition kind: `DATA`,
    /// `UPDATE`, `CHANNEL`, or `P` followed by the type value in decimal.
    pub fn dir_name(&self) -> (r: String)
        ensures
            match self {
                PartitionKind::Data => r@ == "DATA"@,
                PartitionKind::Update => r@ == "UPDATE"@,
                PartitionKind::Channel => r@ == "CHANNEL"@,
                PartitionKind::Other(v) => {
                    &&& r@.len() == 1 + crate::strings::spec_dec(*v as nat).len()
                    &&& r@[0] == 'P'
                    &&& forall|i: int|
                        1 <= i < r@.len() ==> r@[i] as u32 == crate::strings::spec_dec(
                            *v as nat,
                        )[i - 1] as u32
                },
            },
    {
        match self {
            PartitionKind::Data => "DATA".to_owned(),
            PartitionKind::Update => "UPDATE".to_owned(),
            PartitionKind::Channel => "CHANNEL".to_owned(),
            PartitionKind::Other(v) => {
                let digits = crate::strings::u64_string(*v as u64);
                let mut s = "P".to_owned();
                s.push_str(digits.as_str());
                proof {
                    reveal_strlit("P");
                }
                s
            },
        }
    }
}

/// Magic value at offset 0x18 of a Wii disc header.
pub const WII_MAGIC: u32 = 0x5D1C9EA3;

/// Magic value at offset 0x1C of a GameCube disc header.
pub const GCN_MAGIC: u32 = 0xC2339F3D;

/// The disc header at offset 0 of the logical disc (and of each partition's
/// decrypted data).
#[derive(Clone, Debug)]
pub struct DiscHeader {
    /// 6-byte ASCII game id.
    pub game_id: Vec<u8>,
    /// Disc number within a multi-disc release.
    pub disc_num: u8,
    /// Disc version.
    pub disc_version: u8,
    /// Audio streaming flag.
    pub audio_streaming: u8,
    /// Audio streaming buffer size.
    pub audio_stream_buf_size: u8,
    /// Wii magic value (0x5D1C9EA3 when a Wii disc).
    pub wii_magic: u32,
    /// GameCube magic value (0xC2339F3D when a GameCube disc).
    pub gcn_magic: u32,
    /// 64-byte Shift-JIS game title.
    pub game_title: Vec<u8>,
    /// If non-zero, the Wii partitions carry no hash tree.
    pub no_partition_hashes: u8,
    /// If non-zero, the Wii partitions are not encrypted.
    pub no_partition_encryption: u8,
}

/// `h` holds the disc header fields encoded at byte offset `off` of `s`.
pub open spec fn is_disc_header_at(h: DiscHeader, s: Seq<u8>, off: int) -> bool {
    &&& h.game_id@ == s.subrange(off, off + 6)
    &&& h.disc_num == s[off + 6]
    &&& h.disc_version == s[off + 7]
    &&& h.audio_streaming == s[off + 8]
    &&& h.audio_stream_buf_size == s[off + 9]
    &&& h.wii_magic == be32(s, off + 0x18)
    &&& h.gcn_magic == be32(s, off + 0x1C)
    &&& h.game_title@ == s.subrange(off + 0x20, off + 0x60)
    &&& h.no_partition_hashes == s[off + 0x60]
    &&& h.no_partition_encryption == s[off + 0x61]
}

impl DiscHeader {
    /// Whether this is a Wii disc.
    pub fn is_wii(&self) -> (r: bool)
        ensures
            r == (self.wii_magic == WII_MAGIC),
    {
        self.wii_magic == WII_MAGIC
    }

    /// Whether this is a GameCube disc.
    pub fn is_gamecube(&self) -> (r: bool)
        ensures
            r == (self.gcn_magic == GCN_MAGIC),
    {
        self.gcn_magic == GCN_MAGIC
    }

    /// Parses the disc header fields at byte offset `off` of `data`.
    pub fn parse(data: &[u8], off: usize) -> (r: DiscHeader)
        requires
            off + 0x62 <= data@.len(),
        ensures
            is_disc_header_at(r, data@, off as int),
    {
        let _n = data.len();
        DiscHeader {
            game_id: copy_range(data, off, 6),
            disc_num: read_u8(data, off + 6),
            disc_version: read_u8(data, off + 7),
            audio_streaming: read_u8(data, off + 8),
            audio_stream_buf_size: read_u8(data, off + 9),
            wii_magic: read_u32_be(data, off + 0x18),
            gcn_magic: read_u32_be(data, off + 0x1C),
            game_title: copy_range(data, off + 0x20, 0x40),
            no_partition_hashes: read_u8(data, off + 0x60),
            no_partition_encryption: read_u8(data, off + 0x61),
        }
    }

    /// Field-by-field agreement with another header.
    pub open spec fn matches(&self, o: DiscHeader) -> bool {
        &&& self.game_id@ == o.game_id@
        &&& self.disc_num == o.disc_num
        &&& self.disc_version == o.disc_version
        &&& self.audio_streaming == o.audio_streaming
        &&& self.audio_stream_buf_size == o.audio_stream_buf_size
        &&& self.wii_magic == o.wii_magic
        &&& self.gcn_magic == o.gcn_magic
        &&& self.game_title@ == o.game_title@
        &&& self.no_partition_hashes == o.no_partition_hashes
        &&& self.no_partition_encryption == o.no_partition_encryption
    }
}

/// The per-partition header: byte offsets and sizes of the partition's
/// metadata regions, relative to the partition start, with the stored
/// right-shift already undone.
#[derive(Clone, Copy, Debug, PartialEq, Eq, Structural)]
pub struct PartitionHeader {
    /// TMD byte size.
    pub tmd_size: u32,
    /// TMD byte offset from the partition start.
    pub tmd_off: u64,
    /// Certificate chain byte size.
    pub cert_chain_size: u32,
    /// Certificate chain byte offset from the partition start.
    pub cert_chain_off: u64,
    /// H3 table byte offset from the partition start.
    pub h3_table_off: u64,
    /// Encrypted data byte offset from the partition start.
    pub data_off: u64,
    /// Encrypted data byte size.
    pub data_size: u64,
}

/// Byte size of the H3 table region.
pub const H3_TABLE_SIZE: usize = 0x18000;

/// The partition header encoded at byte offset `off`: six 32-bit words after
/// the 0x2A4-byte ticket, with offsets stored shifted right by 2.
pub open spec fn spec_partition_header(s: Seq<u8>, off: int) -> PartitionHeader {
    PartitionHeader {
        tmd_size: be32(s, off + 0x2A4) as u32,
        tmd_off: (be32(s, off + 0x2A8) * 4) as u64,
        cert_chain_size: be32(s, off + 0x2AC) as u32,
        cert_chain_off: (be32(s, off + 0x2B0) * 4) as u64,
        h3_table_off: (be32(s, off + 0x2B4) * 4) as u64,
        data_off: (be32(s, off + 0x2B8) * 4) as u64,
        data_size: (be32(s, off + 0x2BC) * 4) as u64,
    }
}

impl PartitionHeader {
    /// Parses the partition header whose ticket begins at byte offset `off`.
    pub fn parse(data: &[u8], off: usize) -> (r: PartitionHeader)
        requires
            off + 0x2C0 <= data@.len(),
        ensures
            r == spec_partition_header(data@, off as int),
    {
        let _n = data.len();
        PartitionHeader {
            tmd_size: read_u32_be(data, off + 0x2A4),
            tmd_off: read_u32_be(data, off + 0x2A8) as u64 * 4,
            cert_chain_size: read_u32_be(data, off + 0x2AC),
            cert_chain_off: read_u32_be(data, off + 0x2B0) as u64 * 4,
            h3_table_off: read_u32_be(data, off + 0x2B4) as u64 * 4,
            data_off: read_u32_be(data, off + 0x2B8) as u64 * 4,
            data_size: read_u32_be(data, off + 0x2BC) as u64 * 4,
        }
    }
}

/// Information about a Wii partition discovered in the volume group table.
#[derive(Clone, Copy, Debug)]
pub struct PartitionInfo {
    /// The partition's index across all volume groups.
    pub index: usize,
    /// The partition kind.
    pub kind: PartitionKind,
    /// The disc sector holding the partition start (ticket).
    pub start_sector: u32,
    /// The first disc sector of the partition's encrypted data area.
    pub data_start_sector: u32,
    /// The disc sector just past the partition's encrypted data area.
    pub data_end_sector: u32,
    /// The partition header (ticket copy follows at the partition start).
    pub header: PartitionHeader,
}

impl PartitionInfo {
    /// The partition's start offset in bytes.
    pub fn start_offset(&self) -> (r: u64)
        ensures
            r == self.start_sector as int * SECTOR_SIZE as int,
    {
        self.start_sector as u64 * SECTOR_SIZE as u64
    }

    /// The partition's encrypted data start offset in bytes.
    pub fn data_start_offset(&self) -> (r: u64)
        ensures
            r == self.data_start_sector as int * SECTOR_SIZE as int,
    {
        self.data_start_sector as u64 * SECTOR_SIZE as u64
    }

    /// The partition's encrypted data size in bytes.
    pub fn data_size(&self) -> (r: u64)
        requires
            self.data_start_sector <= self.data_end_sector,
        ensures
            r == (self.data_end_sector - self.data_start_sector) as int * SECTOR_SIZE as int,
    {
        (self.data_end_sector - self.data_start_sector) as u64 * SECTOR_SIZE as u64
    }
}

} // verus!
