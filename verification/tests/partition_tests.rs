//! Wii partition decryption, hash-tree validation, and group re-encryption.

use nod::crypto::cbc_encrypt;
use nod::partition::{common_key, decrypt_group_data, encrypt_group_data};
use nod::{Disc, HashLevel, HashWarning, OpenOptions, PartitionKind};
use sha1::Digest;

fn put_u32_be(buf: &mut [u8], off: usize, v: u32) {
    buf[off..off + 4].copy_from_slice(&v.to_be_bytes());
}

fn sha1_of(data: &[u8]) -> [u8; 20] {
    sha1::Sha1::digest(data).into()
}

/// Builds one valid 32 KiB plaintext hash block over `user`, and the H3
/// entry that matches it (for group 0).
fn build_group(user: &[u8]) -> (Vec<u8>, [u8; 20]) {
    assert_eq!(user.len(), 31744);
    let mut plain = vec![0u8; 32768];
    plain[1024..].copy_from_slice(user);
    for i in 0..31 {
        let h = sha1_of(&user[i * 1024..(i + 1) * 1024]);
        plain[i * 20..i * 20 + 20].copy_from_slice(&h);
    }
    let h1 = sha1_of(&plain[0..0x26C]);
    plain[0x280..0x294].copy_from_slice(&h1);
    let h2 = sha1_of(&plain[0x280..0x320]);
    plain[0x340..0x354].copy_from_slice(&h2);
    let h3 = sha1_of(&plain[0x340..0x3E0]);
    (plain, h3)
}

/// A Wii disc image with one data partition holding one hash block.
///
/// The partition sits at 0x50000 with its H3 table at +0x4000 and its data
/// area at +0x8000. `encrypted` selects whether the group is stored
/// ciphertext (with the title key wrapped in the ticket) or plaintext (the
/// `no_partition_encryption` header flag set).
fn wii_image(user: &[u8], encrypted: bool, tamper: bool) -> Vec<u8> {
    let mut img = vec![0u8; 0x60000];
    img[0..6].copy_from_slice(b"WTEST1");
    put_u32_be(&mut img, 0x18, 0x5D1C9EA3);
    img[0x60] = 0;  // partition hashes present
    img[0x61] = if encrypted { 0 } else { 1 };
    // Volume group table: one group with one partition.
    put_u32_be(&mut img, 0x40000, 1);
    put_u32_be(&mut img, 0x40004, 0x40020 >> 2);
    put_u32_be(&mut img, 0x40020, 0x50000 >> 2);
    put_u32_be(&mut img, 0x40024, 0);  // data partition
    // Partition header behind the ticket.
    put_u32_be(&mut img, 0x50000 + 0x2B4, 0x4000 >> 2);  // H3 table
    put_u32_be(&mut img, 0x50000 + 0x2B8, 0x8000 >> 2);  // data offset
    put_u32_be(&mut img, 0x50000 + 0x2BC, 0x8000 >> 2);  // data size
    let (mut plain, h3) = build_group(user);
    img[0x54000..0x54014].copy_from_slice(&h3);
    if tamper {
        plain[1024 + 100] ^= 0xFF;
    }
    if encrypted {
        let title_key = [0x42u8; 16];
        // Wrap the title key in the ticket: AES-128-CBC under the retail
        // common key with the title id followed by zeros as IV.
        let title_id = [9u8; 8];
        img[0x50000 + 0x1DC..0x50000 + 0x1E4].copy_from_slice(&title_id);
        img[0x50000 + 0x1F1] = 0;
        let mut iv = title_id.to_vec();
        iv.extend_from_slice(&[0u8; 8]);
        let ck = common_key(0).unwrap();
        let wrapped = cbc_encrypt(&ck, &iv, &title_key);
        img[0x50000 + 0x1BF..0x50000 + 0x1CF].copy_from_slice(&wrapped);
        let cipher = encrypt_group_data(&title_key, &plain);
        img[0x58000..0x60000].copy_from_slice(&cipher);
    } else {
        img[0x58000..0x60000].copy_from_slice(&plain);
    }
    img
}

fn sample_user() -> Vec<u8> {
    let mut user = vec![0u8; 31744];
    for (i, b) in user.iter_mut().enumerate() {
        *b = (i % 251) as u8;
    }
    user
}

#[test]
fn unencrypted_partition_reads_user_data_and_validates() {
    let user = sample_user();
    let img = wii_image(&user, false, false);
    let disc = Disc::new_with_options(
        img,
        &OpenOptions { rebuild_encryption: false, validate_hashes: true },
    )
    .unwrap();
    assert!(disc.header().is_wii());
    assert_eq!(disc.partitions().len(), 1);
    assert!(matches!(disc.partitions()[0].kind, PartitionKind::Data));
    let mut part = disc.open_partition_kind(PartitionKind::Data).unwrap();
    let got = part.read(31744);
    assert_eq!(got, user);
    assert!(part.warnings().is_empty());
}

#[test]
fn tampered_group_surfaces_exactly_one_h0_mismatch_and_returns_data() {
    let user = sample_user();
    let img = wii_image(&user, false, true);
    let disc = Disc::new_with_options(
        img,
        &OpenOptions { rebuild_encryption: false, validate_hashes: true },
    )
    .unwrap();
    let mut part = disc.open_partition(0).unwrap();
    let got = part.read(31744);
    // The stored (tampered) plaintext still comes back unchanged.
    let mut expect = user.clone();
    expect[100] ^= 0xFF;
    assert_eq!(got, expect);
    // Exactly one warning: an H0 mismatch for hash block 0.
    assert_eq!(part.warnings().len(), 1);
    assert_eq!(part.warnings()[0], HashWarning::HashMismatch(HashLevel::H0, 0));
}

#[test]
fn validation_off_collects_no_warnings() {
    let user = sample_user();
    let img = wii_image(&user, false, true);
    let disc = Disc::new(img).unwrap();
    let mut part = disc.open_partition(0).unwrap();
    let _ = part.read(31744);
    assert!(part.warnings().is_empty());
}

#[test]
fn encrypted_partition_decrypts_through_the_wrapped_title_key() {
    let user = sample_user();
    let img = wii_image(&user, true, false);
    let disc = Disc::new_with_options(
        img,
        &OpenOptions { rebuild_encryption: false, validate_hashes: true },
    )
    .unwrap();
    let mut part = disc.open_partition(0).unwrap();
    let got = part.read(31744);
    assert_eq!(got, user);
    assert!(part.warnings().is_empty());
    // Seek back and re-read a slice in the middle.
    part.seek(1000);
    assert_eq!(part.read(24), &user[1000..1024]);
}

#[test]
fn group_reencryption_round_trips() {
    let mut plain = vec![0u8; 32768];
    for (i, b) in plain.iter_mut().enumerate() {
        *b = (i % 253) as u8;
    }
    let key = [7u8; 16];
    let cipher = encrypt_group_data(&key, &plain);
    assert_eq!(cipher.len(), 32768);
    assert_ne!(cipher, plain);
    let back = decrypt_group_data(&key, &cipher);
    assert_eq!(back, plain);
}

#[test]
fn cbc_chaining_round_trips() {
    let key = [3u8; 16];
    let iv = [9u8; 16];
    let mut pt = vec![0u8; 64];
    for (i, b) in pt.iter_mut().enumerate() {
        *b = i as u8;
    }
    let ct = cbc_encrypt(&key, &iv, &pt);
    let back = nod::crypto::cbc_decrypt(&key, &iv, &ct);
    assert_eq!(back, pt);
}

#[test]
fn common_key_indices() {
    assert!(common_key(0).is_ok());
    assert!(common_key(1).is_ok());
    assert!(common_key(2).is_ok());
    assert!(common_key(3).is_err());
}

#[test]
fn partition_kind_dir_names() {
    assert_eq!(PartitionKind::Data.dir_name(), "DATA");
    assert_eq!(PartitionKind::Update.dir_name(), "UPDATE");
    assert_eq!(PartitionKind::Channel.dir_name(), "CHANNEL");
    assert_eq!(PartitionKind::Other(37).dir_name(), "P37");
}

#[test]
fn rereading_a_tampered_group_adds_no_duplicate_warning() {
    let user = sample_user();
    let img = wii_image(&user, false, true);
    let disc = Disc::new_with_options(
        img,
        &OpenOptions { rebuild_encryption: false, validate_hashes: true },
    )
    .unwrap();
    let mut part = disc.open_partition(0).unwrap();
    let first = part.read(31744);
    part.seek(0);
    let second = part.read(31744);
    assert_eq!(first, second);
    // The most-recent-group cache keeps the warning from repeating.
    assert_eq!(part.warnings().len(), 1);
    assert_eq!(part.warnings()[0], HashWarning::HashMismatch(HashLevel::H0, 0));
}

#[test]
fn kind_selection_picks_the_first_match() {
    let user = sample_user();
    let mut img = wii_image(&user, false, false);
    // Declare a second entry of kind Update pointing at the same partition.
    put_u32_be(&mut img, 0x40000, 2);
    put_u32_be(&mut img, 0x40028, 0x50000 >> 2);
    put_u32_be(&mut img, 0x4002C, 1);
    let disc = Disc::new(img).unwrap();
    assert_eq!(disc.partitions().len(), 2);
    assert!(matches!(disc.partitions()[1].kind, PartitionKind::Update));
    let data = disc.open_partition_kind(PartitionKind::Data).unwrap();
    assert_eq!(data.info.index, 0);
    let update = disc.open_partition_kind(PartitionKind::Update).unwrap();
    assert_eq!(update.info.index, 1);
    assert!(matches!(update.info.kind, PartitionKind::Update));
    assert!(disc.open_partition_kind(PartitionKind::Channel).is_err());
}

#[test]
fn disc_size_covers_the_partition_end() {
    let user = sample_user();
    let img = wii_image(&user, false, false);
    let n = img.len();
    let disc = Disc::new(img).unwrap();
    // The ISO reports its own length, which here equals the last partition's
    // data end.
    assert_eq!(disc.disc_size(), n as u64);
    assert_eq!(disc.partitions()[0].data_end_sector as u64 * 2048, n as u64);
}
