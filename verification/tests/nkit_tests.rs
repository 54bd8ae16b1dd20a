//! NKit sidecar header parsing and metadata merging.

use nod::nkit::{calc_header_size, NKitHeader, NKIT_HEADER_V1_FLAGS};
use nod::{Compression, DiscMeta, Format};

fn base_meta() -> DiscMeta {
    DiscMeta {
        format: Format::Wbfs,
        compression: Compression::NoCompression,
        block_size: Some(0x200000),
        lossless: false,
        needs_hash_recovery: false,
        crc32: None,
        md5: None,
        sha1: None,
        xxhash64: None,
        disc_size: None,
    }
}

#[test]
fn header_size_formula() {
    // Version 1: fixed CRC-32 + MD5 + SHA-1 + XXH64 behind the 8-byte
    // version string.
    assert_eq!(calc_header_size(1, NKIT_HEADER_V1_FLAGS, 0), 56);
    // Version 2 adds 4 bytes of header size and flags.
    assert_eq!(calc_header_size(2, NKIT_HEADER_V1_FLAGS, 0), 60);
    assert_eq!(calc_header_size(2, 0x1, 0), 20);
    assert_eq!(calc_header_size(2, 0x20, 10), 24);
}

#[test]
fn v2_header_parses_flagged_fields() {
    let mut buf = Vec::new();
    buf.extend_from_slice(b"NKIT  v2");
    buf.extend_from_slice(&24u16.to_be_bytes());
    buf.extend_from_slice(&0x3u16.to_be_bytes());
    buf.extend_from_slice(&0x123456789u64.to_be_bytes());
    buf.extend_from_slice(&0xCAFEBABEu32.to_be_bytes());
    let h = NKitHeader::read_from(&buf, 0x200000, false).unwrap();
    assert_eq!(h.version, 2);
    assert_eq!(h.flags, 0x3);
    assert_eq!(h.size, Some(0x123456789));
    assert_eq!(h.crc32, Some(0xCAFEBABE));
    assert!(h.md5.is_none());
    assert!(h.sha1.is_none());
    assert!(h.xxhash64.is_none());
    assert!(h.junk_bits.is_none());
}

#[test]
fn v1_header_has_fixed_flags() {
    let mut buf = Vec::new();
    buf.extend_from_slice(b"NKIT  v1");
    buf.extend_from_slice(&[0x11u8; 4]);
    buf.extend_from_slice(&[0x22u8; 16]);
    buf.extend_from_slice(&[0x33u8; 20]);
    buf.extend_from_slice(&[0x44u8; 8]);
    let h = NKitHeader::read_from(&buf, 0x200000, false).unwrap();
    assert_eq!(h.version, 1);
    assert_eq!(h.flags, NKIT_HEADER_V1_FLAGS);
    assert!(h.size.is_none());
    assert_eq!(h.crc32, Some(0x11111111));
    assert_eq!(h.md5.as_deref(), Some(&[0x22u8; 16][..]));
    assert_eq!(h.sha1.as_deref(), Some(&[0x33u8; 20][..]));
    assert_eq!(h.xxhash64, Some(0x4444444444444444));
}

#[test]
fn junk_bits_follow_the_header() {
    let mut buf = Vec::new();
    buf.extend_from_slice(b"NKIT  v2");
    buf.extend_from_slice(&12u16.to_be_bytes());
    buf.extend_from_slice(&0u16.to_be_bytes());
    // Block size 2 MiB: ceil(ceil(8511160320 / 2097152) / 8) = 508 bitmap
    // bytes.
    let mut bits = vec![0u8; 508];
    bits[0] = 0x40;  // block 1
    bits[1] = 0x80;  // block 8
    buf.extend_from_slice(&bits);
    let h = NKitHeader::read_from(&buf, 0x200000, true).unwrap();
    assert_eq!(h.is_junk_block(0), Some(false));
    assert_eq!(h.is_junk_block(1), Some(true));
    assert_eq!(h.is_junk_block(8), Some(true));
    assert_eq!(h.is_junk_block(9), Some(false));
    assert_eq!(h.is_junk_block(508 * 8), None);
    // Truncated bitmap fails the parse.
    let short = &buf[..buf.len() - 1];
    assert!(NKitHeader::read_from(short, 0x200000, true).is_err());
}

#[test]
fn unsupported_versions_and_bad_magic_fail() {
    assert!(NKitHeader::read_from(b"NKIT  v3........", 0x200000, false).is_err());
    assert!(NKitHeader::read_from(b"NKIT  vX........", 0x200000, false).is_err());
    assert!(NKitHeader::read_from(b"JUNK  v2........", 0x200000, false).is_err());
    assert!(NKitHeader::try_read_from(b"JUNK  v2........", 0x200000, false).is_none());
}

#[test]
fn apply_merges_metadata() {
    let mut buf = Vec::new();
    buf.extend_from_slice(b"NKIT  v2");
    buf.extend_from_slice(&24u16.to_be_bytes());
    buf.extend_from_slice(&0x3u16.to_be_bytes());
    buf.extend_from_slice(&4194304u64.to_be_bytes());
    buf.extend_from_slice(&7u32.to_be_bytes());
    buf.extend_from_slice(&vec![0u8; 508]);
    let h = NKitHeader::read_from(&buf, 0x200000, true).unwrap();
    let mut meta = base_meta();
    h.apply(&mut meta);
    // Lossless needs both size and junk bits; hash recovery needs junk bits.
    assert!(meta.lossless);
    assert!(meta.needs_hash_recovery);
    assert_eq!(meta.disc_size, Some(4194304));
    assert_eq!(meta.crc32, Some(7));
    assert!(meta.md5.is_none());
    // A stored disc size is not overwritten.
    let mut meta2 = base_meta();
    meta2.disc_size = Some(99);
    h.apply(&mut meta2);
    assert_eq!(meta2.disc_size, Some(99));
}
