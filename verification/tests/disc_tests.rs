//! Disc-level reading across container formats: raw ISO pass-through, CISO
//! sparse and junk regions, WBFS with the NKit sidecar, and junk determinism
//! across containers.

use nod::{Disc, Format};
use sha1::Digest;

fn put_u32_be(buf: &mut [u8], off: usize, v: u32) {
    buf[off..off + 4].copy_from_slice(&v.to_be_bytes());
}

/// A small GameCube image: disc header, boot offsets, apploader header, DOL
/// header, FST with `/MP3/Worlds.txt`, and that file's content.
fn gc_image() -> (Vec<u8>, Vec<u8>) {
    let mut img = vec![0u8; 0x10000];
    img[0..6].copy_from_slice(b"GTEST1");
    put_u32_be(&mut img, 0x1C, 0xC2339F3D);
    img[0x20..0x2A].copy_from_slice(b"Test Title");
    // Boot header: DOL at 0x3000, FST at 0x4000.
    put_u32_be(&mut img, 0x420, 0x3000);
    put_u32_be(&mut img, 0x424, 0x4000);
    // FST bytes.
    let content = b"Hello, world of discs!".to_vec();
    let mut fst = Vec::new();
    let nodes: [(u8, u32, u32, u32); 4] = [
        (1, 0, 0, 4),
        (1, 1, 0, 3),
        (0, 5, 0x5000, content.len() as u32),
        (0, 16, 0x999, 77),
    ];
    for (kind, name_off, offset, length) in nodes.iter() {
        fst.push(*kind);
        fst.push((*name_off >> 16) as u8);
        fst.push((*name_off >> 8) as u8);
        fst.push(*name_off as u8);
        fst.extend_from_slice(&offset.to_be_bytes());
        fst.extend_from_slice(&length.to_be_bytes());
    }
    fst.extend_from_slice(b"\0MP3\0Worlds.txt\0other.bin\0");
    put_u32_be(&mut img, 0x428, fst.len() as u32);
    img[0x4000..0x4000 + fst.len()].copy_from_slice(&fst);
    img[0x5000..0x5000 + content.len()].copy_from_slice(&content);
    (img, content)
}

#[test]
fn iso_disc_size_is_file_length_and_last_sector_reads_back() {
    let (img, _) = gc_image();
    let n = img.len();
    let mut disc = Disc::new(img.clone()).unwrap();
    assert_eq!(disc.disc_size(), n as u64);
    disc.seek(n as u64 - 2048);
    let tail = disc.read(2048);
    assert_eq!(&tail[..], &img[n - 2048..]);
}

#[test]
fn iso_single_bytes_match_the_reference_image() {
    let (img, _) = gc_image();
    let mut disc = Disc::new(img.clone()).unwrap();
    for o in [0u64, 1, 0x1C, 0x41FF, 0x5003, 0xFFFF] {
        disc.seek(o);
        let b = disc.read(1);
        assert_eq!(b[0], img[o as usize]);
    }
    // Reading past the end returns nothing.
    disc.seek(img.len() as u64);
    assert_eq!(disc.read(16).len(), 0);
}

#[test]
fn gamecube_header_meta_and_file_hash() {
    let (img, content) = gc_image();
    let disc = Disc::new(img).unwrap();
    assert!(disc.header().is_gamecube());
    assert!(!disc.header().is_wii());
    assert_eq!(disc.header().game_id, b"GTEST1");
    assert_eq!(disc.meta().format, Format::Iso);
    assert_eq!(disc.partitions().len(), 0);
    let mut part = disc.open_partition(0).unwrap();
    assert!(disc.open_partition(1).is_err());
    let meta = part.meta().unwrap();
    assert_eq!(meta.raw_boot.len(), 0x440);
    assert_eq!(meta.raw_bi2.len(), 0x2000);
    assert_eq!(meta.raw_apploader.len(), 0x20);
    assert_eq!(meta.raw_dol.len(), 0x100);
    let fst = meta.fst().unwrap();
    let (_, node) = fst.find("/MP3/Worlds.txt").unwrap();
    assert_eq!(node.length(), content.len() as u64);
    let mut stream = part.open_file(&node);
    let data = stream.read(content.len());
    assert_eq!(data, content);
    let got = sha1::Sha1::digest(&data);
    let expect = sha1::Sha1::digest(&content);
    assert_eq!(got, expect);
}

#[test]
fn unknown_and_unsupported_formats_are_rejected() {
    assert!(Disc::new(vec![0u8; 64]).is_err());
    let mut wia = vec![0u8; 64];
    wia[0..4].copy_from_slice(b"WIA\x01");
    assert!(Disc::new(wia).is_err());
    let mut rvz = vec![0u8; 64];
    rvz[0..4].copy_from_slice(b"RVZ\x01");
    assert!(Disc::new(rvz).is_err());
}

/// A CISO container over the GameCube image with 2 MiB blocks: block 0 and
/// block 2 stored, block 1 absent.
fn ciso_image(with_nkit: bool) -> Vec<u8> {
    let bs: usize = 0x200000;
    let (gc, _) = gc_image();
    let mut buf = vec![0u8; 0x8000];
    buf[0..4].copy_from_slice(b"CISO");
    buf[4..8].copy_from_slice(&(bs as u32).to_le_bytes());
    buf[8] = 1;
    buf[10] = 1;
    // Block 0: the GameCube image, zero-padded.
    let mut b0 = gc.clone();
    b0.resize(bs, 0);
    buf.extend_from_slice(&b0);
    // Block 2: a recognizable pattern.
    buf.extend_from_slice(&vec![0xA5u8; bs]);
    if with_nkit {
        buf.extend_from_slice(b"NKIT  v2");
        buf.extend_from_slice(&24u16.to_be_bytes());
        buf.extend_from_slice(&0x3u16.to_be_bytes());
        buf.extend_from_slice(&(3 * bs as u64).to_be_bytes());
        buf.extend_from_slice(&0u32.to_be_bytes());
        let mut bits = vec![0u8; 508];
        bits[0] = 0x40;  // block 1 is junk
        buf.extend_from_slice(&bits);
    }
    buf
}

#[test]
fn ciso_absent_blocks_read_zero_without_sidecar() {
    let mut disc = Disc::new(ciso_image(false)).unwrap();
    assert_eq!(disc.meta().format, Format::Ciso);
    assert_eq!(disc.disc_size(), 3 * 0x200000);
    disc.seek(0x200000 + 12345);
    let bytes = disc.read(64);
    assert_eq!(bytes, vec![0u8; 64]);
    // Stored blocks read back.
    disc.seek(0x5000);
    assert_eq!(disc.read(5), b"Hello".to_vec());
    disc.seek(2 * 0x200000);
    assert_eq!(disc.read(4), vec![0xA5u8; 4]);
}

#[test]
fn ciso_junk_blocks_read_the_junk_pattern_with_sidecar() {
    let mut disc = Disc::new(ciso_image(true)).unwrap();
    assert!(disc.meta().lossless);
    assert!(disc.meta().needs_hash_recovery);
    // Logical offset 0x200000 is sector 1024 of the disc.
    let sector = 0x200000 / 2048;
    let expect = nod::lfg::junk_sector(b"GTES", 0, sector as u32);
    disc.seek(0x200000);
    let got = disc.read(2048);
    assert_eq!(got, expect);
    // And an unaligned slice further into the block.
    disc.seek(0x200000 + 3 * 2048 + 100);
    let got2 = disc.read(48);
    let expect2 = nod::lfg::junk_sector(b"GTES", 0, sector as u32 + 3);
    assert_eq!(&got2[..], &expect2[100..148]);
}

/// A WBFS container over the GameCube image with 2 MiB blocks: block 0
/// mapped, block 1 junk-flagged, and an NKit sidecar at its fixed offset.
fn wbfs_image(crc32: u32) -> Vec<u8> {
    let bs: usize = 0x200000;
    let (gc, _) = gc_image();
    // Head sector size 512; one disc in slot 0.
    let mut buf = vec![0u8; 2 * bs + bs];
    buf[0..4].copy_from_slice(b"WBFS");
    buf[8] = 9;
    buf[9] = 21;
    buf[12] = 1;
    // Disc record at 512: header copy, then the block table.
    buf[512..512 + 6].copy_from_slice(b"GTEST1");
    let wlba_count = (4699979776u64 + bs as u64 - 1) / bs as u64;
    // Block 0 of the disc is stored in container block 1.
    let table = 512 + 0x100;
    buf[table] = 0;
    buf[table + 1] = 1;
    // NKit sidecar at its fixed offset.
    let mut nk = Vec::new();
    nk.extend_from_slice(b"NKIT  v2");
    nk.extend_from_slice(&24u16.to_be_bytes());
    nk.extend_from_slice(&0x3u16.to_be_bytes());
    nk.extend_from_slice(&(2 * bs as u64).to_be_bytes());
    nk.extend_from_slice(&crc32.to_be_bytes());
    let mut bits = vec![0u8; 508];
    bits[0] = 0x40;  // disc block 1 is junk
    nk.extend_from_slice(&bits);
    buf[0x10000..0x10000 + nk.len()].copy_from_slice(&nk);
    // Container block 1 holds the image.
    buf[bs..bs + gc.len()].copy_from_slice(&gc);
    assert!(wlba_count * 2 + 0x100 + 512 <= bs as u64);
    buf
}

#[test]
fn wbfs_junk_blocks_and_whole_image_crc() {
    // First pass: read the whole logical disc and compute its CRC-32.
    let mut disc = Disc::new(wbfs_image(0)).unwrap();
    assert_eq!(disc.meta().format, Format::Wbfs);
    assert_eq!(disc.disc_size(), 2 * 0x200000);
    let mut whole = Vec::new();
    disc.seek(0);
    loop {
        let chunk = disc.read(0x40000);
        if chunk.is_empty() {
            break;
        }
        whole.extend_from_slice(&chunk);
    }
    assert_eq!(whole.len(), 2 * 0x200000);
    // The junk-flagged block reads as the LFSR stream.
    let sector = 0x200000 / 2048;
    let expect = nod::lfg::junk_sector(b"GTES", 0, sector as u32);
    assert_eq!(&whole[0x200000..0x200000 + 2048], &expect[..]);
    // Second pass: store that CRC in the sidecar and verify it reads back
    // equal to the recomputed whole-image CRC.
    let crc = crc32fast::hash(&whole);
    let mut disc2 = Disc::new(wbfs_image(crc)).unwrap();
    assert_eq!(disc2.meta().crc32, Some(crc));
    let mut whole2 = Vec::new();
    loop {
        let chunk = disc2.read(0x40000);
        if chunk.is_empty() {
            break;
        }
        whole2.extend_from_slice(&chunk);
    }
    assert_eq!(crc32fast::hash(&whole2), crc);
}

#[test]
fn junk_bytes_are_identical_across_containers_of_the_same_title() {
    // The same title and block size in a CISO and a WBFS container: the
    // synthesized junk for a flagged block is byte-identical.
    let mut ciso = Disc::new(ciso_image(true)).unwrap();
    let mut wbfs = Disc::new(wbfs_image(0)).unwrap();
    ciso.seek(0x200000);
    wbfs.seek(0x200000);
    let a = ciso.read(4096);
    let b = wbfs.read(4096);
    assert_eq!(a, b);
}

#[test]
fn extension_checks() {
    assert!(nod::has_extension("dir/game.iso", "iso"));
    assert!(nod::has_extension("dir/game.ISO", "iso"));
    assert!(nod::has_extension("game.wbfs", "WBFS"));
    assert!(!nod::has_extension("game.wbfs", "iso"));
    assert!(!nod::has_extension("archive.tar/game", "tar"));
    assert!(!nod::has_extension(".hidden", "hidden"));
    assert!(!nod::has_extension("noext", "iso"));
    assert!(nod::has_extension("a.b.nfs", "nfs"));
}
