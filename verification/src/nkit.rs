//! The NKit sidecar header carried by WBFS and CISO containers: whole-image
//! hashes, the stored disc size, and the junk-bits bitmap of the lossless
//! mode.

use vstd::prelude::*;

use crate::{Error, Result};
use crate::common::DiscMeta;
use crate::util::{be16, be32, be64, copy_range, read_u16_be, read_u32_be, read_u64_be, read_u8};

verus! {

/// Size in bytes of a dual-layer DVD, bounding the junk-bits bitmap.
pub const DL_DVD_SIZE: u64 = 8511160320;

/// Header flag: the total disc size field is present.
pub const NKIT_FLAG_SIZE: u16 = 0x1;

/// Header flag: the CRC-32 field is present.
pub const NKIT_FLAG_CRC32: u16 = 0x2;

/// Header flag: the MD5 field is present.
pub const NKIT_FLAG_MD5: u16 = 0x4;

/// Header flag: the SHA-1 field is present.
pub const NKIT_FLAG_SHA1: u16 = 0x8;

/// Header flag: the XXH64 field is present.
pub const NKIT_FLAG_XXHASH64: u16 = 0x10;

/// Header flag: the key field is present.
pub const NKIT_FLAG_KEY: u16 = 0x20;

/// The fixed flag set of a version-1 header: CRC-32, MD5, SHA-1 and XXH64.
pub const NKIT_HEADER_V1_FLAGS: u16 = 0x2 | 0x4 | 0x8 | 0x10;

/// The byte size of a header with the given version and flag set.
pub open spec fn spec_header_size(version: u8, flags: u16, key_len: u32) -> int {
    8 + (if version >= 2 { 4int } else { 0 }) + (if flags & NKIT_FLAG_SIZE != 0 { 8int } else { 0 })
        + (if flags & NKIT_FLAG_CRC32 != 0 { 4int } else { 0 }) + (if flags & NKIT_FLAG_MD5 != 0 {
        16int
    } else {
        0
    }) + (if flags & NKIT_FLAG_SHA1 != 0 { 20int } else { 0 }) + (if flags & NKIT_FLAG_XXHASH64
        != 0 {
        8int
    } else {
        0
    }) + (if flags & NKIT_FLAG_KEY != 0 { key_len + 2 } else { 0 })
}

/// Computes the byte size of a header with the given version and flag set: 8
/// bytes of version string, 4 more bytes of header size and flags from
/// version 2 on, and the sizes of the fields the flags select.
pub fn calc_header_size(version: u8, flags: u16, key_len: u32) -> (r: usize)
    requires
        key_len <= 0xFFFF,
    ensures
        r == spec_header_size(version, flags, key_len),
{
    let mut size: usize = 8;
    if version >= 2 {
        // header size + flags
        size = size + 4;
    }
    if flags & NKIT_FLAG_SIZE != 0 {
        size = size + 8;
    }
    if flags & NKIT_FLAG_CRC32 != 0 {
        size = size + 4;
    }
    if flags & NKIT_FLAG_MD5 != 0 {
        size = size + 16;
    }
    if flags & NKIT_FLAG_SHA1 != 0 {
        size = size + 20;
    }
    if flags & NKIT_FLAG_XXHASH64 != 0 {
        size = size + 8;
    }
    if flags & NKIT_FLAG_KEY != 0 {
        size = size + key_len as usize + 2;
    }
    size
}

/// An NKit sidecar header.
#[derive(Debug, Clone)]
pub struct NKitHeader {
    /// Header version (1 or 2).
    pub version: u8,
    /// The field-presence flag set.
    pub flags: u16,
    /// Size of the full disc image in bytes.
    pub size: Option<u64>,
    /// CRC-32 of the full disc image.
    pub crc32: Option<u32>,
    /// MD5 of the full disc image (16 bytes).
    pub md5: Option<Vec<u8>>,
    /// SHA-1 of the full disc image (20 bytes).
    pub sha1: Option<Vec<u8>>,
    /// XXH64 of the full disc image.
    pub xxhash64: Option<u64>,
    /// Bitstream of container blocks that are junk data.
    pub junk_bits: Option<Vec<u8>>,
    /// The container's block size the junk bitmap is indexed by.
    pub block_size: u32,
}

/// The version digit of the header at the start of `s`, valid only when
/// `has_nkit_prefix` holds.
pub open spec fn nkit_version(s: Seq<u8>) -> int {
    s[7] - 0x30
}

/// `s` starts with the ASCII version prefix of an NKit header and a version
/// digit between 1 and 9.
pub open spec fn has_nkit_prefix(s: Seq<u8>) -> bool {
    &&& s.len() >= 8
    &&& s[0] == 0x4E  // 'N'
    &&& s[1] == 0x4B  // 'K'
    &&& s[2] == 0x49  // 'I'
    &&& s[3] == 0x54  // 'T'
    &&& s[4] == 0x20  // ' '
    &&& s[5] == 0x20  // ' '
    &&& s[6] == 0x76  // 'v'
    &&& 0x31 <= s[7] <= 0x39
}

/// The flag set of the header at the start of `s`: fixed for version 1, read
/// from the header for version 2.
pub open spec fn nkit_flags(s: Seq<u8>) -> u16 {
    if nkit_version(s) == 1 {
        NKIT_HEADER_V1_FLAGS
    } else {
        be16(s, 10) as u16
    }
}

/// The stored header size: computed for version 1, read for version 2.
pub open spec fn nkit_header_size(s: Seq<u8>) -> int {
    if nkit_version(s) == 1 {
        spec_header_size(1, NKIT_HEADER_V1_FLAGS, 0)
    } else {
        be16(s, 8)
    }
}

/// Offset of the disc size field.
pub open spec fn off_size(s: Seq<u8>) -> int {
    if nkit_version(s) == 1 {
        8
    } else {
        12
    }
}

/// Offset of the CRC-32 field.
pub open spec fn off_crc32(s: Seq<u8>) -> int {
    off_size(s) + (if nkit_flags(s) & NKIT_FLAG_SIZE != 0 {
        8int
    } else {
        0
    })
}

/// Offset of the MD5 field.
pub open spec fn off_md5(s: Seq<u8>) -> int {
    off_crc32(s) + (if nkit_flags(s) & NKIT_FLAG_CRC32 != 0 {
        4int
    } else {
        0
    })
}

/// Offset of the SHA-1 field.
pub open spec fn off_sha1(s: Seq<u8>) -> int {
    off_md5(s) + (if nkit_flags(s) & NKIT_FLAG_MD5 != 0 {
        16int
    } else {
        0
    })
}

/// Offset of the XXH64 field.
pub open spec fn off_xxhash64(s: Seq<u8>) -> int {
    off_sha1(s) + (if nkit_flags(s) & NKIT_FLAG_SHA1 != 0 {
        20int
    } else {
        0
    })
}

/// Offset just past the last hash field.
pub open spec fn off_fields_end(s: Seq<u8>) -> int {
    off_xxhash64(s) + (if nkit_flags(s) & NKIT_FLAG_XXHASH64 != 0 {
        8int
    } else {
        0
    })
}

/// The junk-bits bitmap length for a given block size: one bit per container
/// block of a dual-layer disc, rounded up to whole bytes.
pub open spec fn junk_bits_len(block_size: u32) -> int {
    ((DL_DVD_SIZE + block_size - 1) as int / block_size as int + 7) / 8
}

/// The header at the start of `s` parses: the prefix and version are
/// understood, the stored header size covers the flagged fields and lies
/// within `s`, and the junk bitmap (when expected) lies within `s` behind
/// the header.
pub open spec fn nkit_parses(s: Seq<u8>, block_size: u32, has_junk_bits: bool) -> bool {
    &&& has_nkit_prefix(s)
    &&& 1 <= nkit_version(s) <= 2
    &&& (nkit_version(s) == 2 ==> s.len() >= 12 && nkit_header_size(s) >= 12)
    &&& nkit_header_size(s) >= off_fields_end(s)
    &&& s.len() >= nkit_header_size(s)
    &&& (has_junk_bits ==> s.len() >= nkit_header_size(s) + junk_bits_len(block_size))
}

/// `h` holds the fields of the NKit header at the start of `s`.
pub open spec fn is_nkit_header(
    h: NKitHeader,
    s: Seq<u8>,
    block_size: u32,
    has_junk_bits: bool,
) -> bool {
    &&& h.version == nkit_version(s)
    &&& h.flags == nkit_flags(s)
    &&& h.size == (if nkit_flags(s) & NKIT_FLAG_SIZE != 0 {
        Some(be64(s, off_size(s)) as u64)
    } else {
        None::<u64>
    })
    &&& h.crc32 == (if nkit_flags(s) & NKIT_FLAG_CRC32 != 0 {
        Some(be32(s, off_crc32(s)) as u32)
    } else {
        None::<u32>
    })
    &&& (match h.md5 {
        Some(v) => nkit_flags(s) & NKIT_FLAG_MD5 != 0 && v@ == s.subrange(
            off_md5(s),
            off_md5(s) + 16,
        ),
        None => nkit_flags(s) & NKIT_FLAG_MD5 == 0,
    })
    &&& (match h.sha1 {
        Some(v) => nkit_flags(s) & NKIT_FLAG_SHA1 != 0 && v@ == s.subrange(
            off_sha1(s),
            off_sha1(s) + 20,
        ),
        None => nkit_flags(s) & NKIT_FLAG_SHA1 == 0,
    })
    &&& h.xxhash64 == (if nkit_flags(s) & NKIT_FLAG_XXHASH64 != 0 {
        Some(be64(s, off_xxhash64(s)) as u64)
    } else {
        None::<u64>
    })
    &&& (match h.junk_bits {
        Some(v) => has_junk_bits && v@ == s.subrange(
            nkit_header_size(s),
            nkit_header_size(s) + junk_bits_len(block_size),
        ),
        None => !has_junk_bits,
    })
    &&& h.block_size == block_size
}

impl NKitHeader {
    /// Probes for an NKit header at the start of `buf`: absent magic bytes or
    /// a header that fails to parse give `None`.
    pub fn try_read_from(buf: &[u8], block_size: u32, has_junk_bits: bool) -> (r: Option<
        NKitHeader,
    >)
        requires
            block_size >= 1,
        ensures
            r is Some <==> buf@.len() >= 4 && buf@[0] == 0x4E && buf@[1] == 0x4B && buf@[2] == 0x49
                && buf@[3] == 0x54 && nkit_parses(buf@, block_size, has_junk_bits),
            r is Some ==> is_nkit_header(r->0, buf@, block_size, has_junk_bits),
    {
        let n = buf.len();
        if n >= 4 && read_u8(buf, 0) == 0x4E && read_u8(buf, 1) == 0x4B && read_u8(buf, 2) == 0x49
            && read_u8(buf, 3) == 0x54 {
            match NKitHeader::read_from(buf, block_size, has_junk_bits) {
                Ok(header) => Some(header),
                Err(_) => None,
            }
        } else {
            None
        }
    }

    /// Reads an NKit header from the start of `buf`.
    ///
    /// Fails exactly when the version prefix or digit is malformed, the
    /// version is not 1 or 2, the stored header size cannot cover the flagged
    /// fields, or the buffer is too short for the header or for the junk
    /// bitmap that `has_junk_bits` promises behind it.
    pub fn read_from(buf: &[u8], block_size: u32, has_junk_bits: bool) -> (r: Result<NKitHeader>)
        requires
            block_size >= 1,
        ensures
            r is Ok <==> nkit_parses(buf@, block_size, has_junk_bits),
            r is Ok ==> is_nkit_header(r->Ok_0, buf@, block_size, has_junk_bits),
    {
        let n = buf.len();
        if n < 8 {
            return Err(Error::DiscFormat("NKit header too short".to_owned()));
        }
        if !(read_u8(buf, 0) == 0x4E && read_u8(buf, 1) == 0x4B && read_u8(buf, 2) == 0x49
            && read_u8(buf, 3) == 0x54 && read_u8(buf, 4) == 0x20 && read_u8(buf, 5) == 0x20
            && read_u8(buf, 6) == 0x76) {
            return Err(Error::DiscFormat("Invalid NKit header version string".to_owned()));
        }
        let digit = read_u8(buf, 7);
        if digit < 0x31 || digit > 0x39 {
            return Err(Error::DiscFormat("Invalid NKit header version string".to_owned()));
        }
        let version = digit - 0x30;
        if version > 2 {
            return Err(Error::DiscFormat(crate::strings::msg_with_number(
                "Unsupported NKit header version: ",
                version as u64,
                "",
            )));
        }
        let header_size: usize = if version == 1 {
            calc_header_size(1, NKIT_HEADER_V1_FLAGS, 0)
        } else {
            if n < 12 {
                return Err(Error::DiscFormat("NKit header too short".to_owned()));
            }
            let hs = read_u16_be(buf, 8) as usize;
            if hs < 12 {
                return Err(Error::DiscFormat("NKit header size too small".to_owned()));
            }
            hs
        };
        let flags: u16 = if version == 1 {
            NKIT_HEADER_V1_FLAGS
        } else {
            read_u16_be(buf, 10)
        };
        let mut off: usize = if version == 1 {
            8
        } else {
            12
        };
        // The flagged fields must fit inside the stored header size, and the
        // header inside the buffer.
        let fields: usize = (if flags & NKIT_FLAG_SIZE != 0 {
            8usize
        } else {
            0
        }) + (if flags & NKIT_FLAG_CRC32 != 0 {
            4usize
        } else {
            0
        }) + (if flags & NKIT_FLAG_MD5 != 0 {
            16usize
        } else {
            0
        }) + (if flags & NKIT_FLAG_SHA1 != 0 {
            20usize
        } else {
            0
        }) + (if flags & NKIT_FLAG_XXHASH64 != 0 {
            8usize
        } else {
            0
        });
        if header_size < off + fields {
            return Err(Error::DiscFormat("NKit header fields out of bounds".to_owned()));
        }
        if n < header_size {
            return Err(Error::DiscFormat("NKit header too short".to_owned()));
        }
        proof {
            assert(off + fields == off_fields_end(buf@));
        }
        let size: Option<u64> = if flags & NKIT_FLAG_SIZE != 0 {
            let v = read_u64_be(buf, off);
            off = off + 8;
            Some(v)
        } else {
            None
        };
        let crc32: Option<u32> = if flags & NKIT_FLAG_CRC32 != 0 {
            let v = read_u32_be(buf, off);
            off = off + 4;
            Some(v)
        } else {
            None
        };
        let md5: Option<Vec<u8>> = if flags & NKIT_FLAG_MD5 != 0 {
            let v = copy_range(buf, off, 16);
            off = off + 16;
            Some(v)
        } else {
            None
        };
        let sha1: Option<Vec<u8>> = if flags & NKIT_FLAG_SHA1 != 0 {
            let v = copy_range(buf, off, 20);
            off = off + 20;
            Some(v)
        } else {
            None
        };
        let xxhash64: Option<u64> = if flags & NKIT_FLAG_XXHASH64 != 0 {
            let v = read_u64_be(buf, off);
            off = off + 8;
            Some(v)
        } else {
            None
        };
        let junk_bits: Option<Vec<u8>> = if has_junk_bits {
            let blocks: u64 = (DL_DVD_SIZE + block_size as u64 - 1) / block_size as u64;
            let bits: u64 = (blocks + 7) / 8;
            proof {
                assert(bits <= DL_DVD_SIZE);
            }
            if (n as u64) < header_size as u64 + bits {
                return Err(Error::DiscFormat("NKit junk bitmap out of bounds".to_owned()));
            }
            Some(copy_range(buf, header_size, bits as usize))
        } else {
            None
        };
        Ok(NKitHeader { version, flags, size, crc32, md5, sha1, xxhash64, junk_bits, block_size })
    }

    /// Whether the junk bitmap flags `block` as junk-filled: bit
    /// `7 - block mod 8` of byte `block / 8`; `None` without a bitmap or past
    /// its end.
    pub fn is_junk_block(&self, block: u32) -> (r: Option<bool>)
        ensures
            r == spec_is_junk_block(self, block),
    {
        match &self.junk_bits {
            Some(v) => {
                proof {
                    vstd::arithmetic::power2::lemma2_to64();
                }
                let byte = (block / 8) as usize;
                if byte < v.len() {
                    let b = v[byte];
                    let bit = block % 8;
                    Some(b / bit_value(7 - bit as u8) % 2 == 1)
                } else {
                    None
                }
            },
            None => None,
        }
    }

    /// Merges this header into container metadata: hash recovery is needed
    /// exactly when a junk bitmap is present; the image is lossless exactly
    /// when both size and junk bitmap are present; the disc size fills in
    /// when the container had none; stored hashes overwrite when present.
    pub fn apply(&self, meta: &mut DiscMeta)
        ensures
            final(meta).format == old(meta).format,
            final(meta).compression == old(meta).compression,
            final(meta).block_size == old(meta).block_size,
            final(meta).needs_hash_recovery == (self.junk_bits is Some),
            final(meta).lossless == (self.size is Some && self.junk_bits is Some),
            final(meta).disc_size == (if old(meta).disc_size is Some {
                old(meta).disc_size
            } else {
                self.size
            }),
            final(meta).crc32 == (if self.crc32 is Some {
                self.crc32
            } else {
                old(meta).crc32
            }),
            (final(meta).md5 is Some) == (self.md5 is Some || old(meta).md5 is Some),
            final(meta).md5 is Some ==> final(meta).md5->0@ == (if self.md5 is Some {
                self.md5->0@
            } else {
                old(meta).md5->0@
            }),
            (final(meta).sha1 is Some) == (self.sha1 is Some || old(meta).sha1 is Some),
            final(meta).sha1 is Some ==> final(meta).sha1->0@ == (if self.sha1 is Some {
                self.sha1->0@
            } else {
                old(meta).sha1->0@
            }),
            final(meta).xxhash64 == (if self.xxhash64 is Some {
                self.xxhash64
            } else {
                old(meta).xxhash64
            }),
    {
        meta.needs_hash_recovery = self.junk_bits.is_some();
        meta.lossless = self.size.is_some() && self.junk_bits.is_some();
        if meta.disc_size.is_none() {
            meta.disc_size = self.size;
        }
        if let Some(v) = self.crc32 {
            meta.crc32 = Some(v);
        }
        if let Some(v) = &self.md5 {
            meta.md5 = Some(v.clone());
        }
        if let Some(v) = &self.sha1 {
            meta.sha1 = Some(v.clone());
        }
        if let Some(v) = self.xxhash64 {
            meta.xxhash64 = Some(v);
        }
    }
}

/// What `is_junk_block` reports: the addressed bitmap bit, when the bitmap is
/// present and long enough.
pub open spec fn spec_is_junk_block(h: &NKitHeader, block: u32) -> Option<bool> {
    match h.junk_bits {
        Some(v) => {
            if block / 8 < v@.len() {
                Some(v@[block as int / 8] as int / vstd::arithmetic::power2::pow2(
                    (7 - block % 8) as nat,
                ) as int % 2 == 1)
            } else {
                None
            }
        },
        None => None,
    }
}

/// `2^k` for a bit index inside a byte.
fn bit_value(k: u8) -> (r: u8)
    requires
        k < 8,
    ensures
        r as int == vstd::arithmetic::power2::pow2(k as nat),
{
    proof {
        vstd::arithmetic::power2::lemma2_to64();
    }
    if k == 0 {
        1
    } else if k == 1 {
        2
    } else if k == 2 {
        4
    } else if k == 3 {
        8
    } else if k == 4 {
        16
    } else if k == 5 {
        32
    } else if k == 6 {
        64
    } else {
        128
    }
}

} // verus!
