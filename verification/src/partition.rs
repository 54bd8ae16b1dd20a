//! The partition reader: presents a Wii partition's user data as a decrypted
//! seekable byte stream, optionally validating the per-group hash tree, and
//! parses the partition's metadata (boot, bi2, apploader, DOL, FST).

use vstd::prelude::*;

use crate::{Error, OpenOptions, Result};
use crate::common::{PartitionInfo, H3_TABLE_SIZE};
use crate::crypto::{cbc_dec, cbc_decrypt, cbc_enc, sha1_digest, sha1_of};
use crate::disc::DiscReader;
use crate::fst::Fst;
use crate::util::{append_bytes, copy_range, read_u32_be, zero_vec};

verus! {

/// Plaintext user bytes per 32 KiB hash block.
pub const BLOCK_DATA_SIZE: usize = 31744;

/// Bytes per hash block, hash section included.
pub const BLOCK_FULL_SIZE: usize = 32768;

/// The level of the hash tree at which a mismatch was found.
#[derive(Clone, Copy, Debug, PartialEq, Eq, Structural)]
pub enum HashLevel {
    /// Per-kilobyte hashes over user data.
    H0,
    /// Hashes over a block's H0 table.
    H1,
    /// Hashes over a subgroup's H1 table.
    H2,
    /// Per-group hashes stored in the partition's H3 table.
    H3,
}

/// A warning surfaced while validating partition data hashes.
#[derive(Clone, Copy, Debug, PartialEq, Eq, Structural)]
pub enum HashWarning {
    /// The hash at the given level did not match for the given hash block.
    HashMismatch(HashLevel, u32),
}

/// Each 1024-byte user chunk of a decrypted hash block hashes to its H0
/// entry.
pub open spec fn h0_ok(plain: Seq<u8>) -> bool {
    forall|i: int|
        0 <= i < 31 ==> #[trigger] sha1_of(plain.subrange(1024 + i * 1024, 1024 + i * 1024 + 1024))
            == plain.subrange(i * 20, i * 20 + 20)
}

/// The H0 table hashes to the block's entry of the H1 table.
pub open spec fn h1_ok(plain: Seq<u8>, g: int) -> bool {
    sha1_of(plain.subrange(0, 0x26C)) == plain.subrange(
        0x280 + (g % 8) * 20,
        0x280 + (g % 8) * 20 + 20,
    )
}

/// The H1 table hashes to the block's entry of the H2 table.
pub open spec fn h2_ok(plain: Seq<u8>, g: int) -> bool {
    sha1_of(plain.subrange(0x280, 0x320)) == plain.subrange(
        0x340 + ((g / 8) % 8) * 20,
        0x340 + ((g / 8) % 8) * 20 + 20,
    )
}

/// The H2 table hashes to the stored H3 entry.
pub open spec fn h3_ok(plain: Seq<u8>, h3_entry: Seq<u8>) -> bool {
    sha1_of(plain.subrange(0x340, 0x3E0)) == h3_entry
}

/// The warnings that validating one decrypted hash block surfaces: one per
/// failing hash level, in tree order.
pub open spec fn group_warnings(plain: Seq<u8>, g: int, h3_entry: Seq<u8>) -> Seq<HashWarning> {
    (if !h0_ok(plain) {
        seq![HashWarning::HashMismatch(HashLevel::H0, g as u32)]
    } else {
        Seq::<HashWarning>::empty()
    }) + (if !h1_ok(plain, g) {
        seq![HashWarning::HashMismatch(HashLevel::H1, g as u32)]
    } else {
        Seq::<HashWarning>::empty()
    }) + (if !h2_ok(plain, g) {
        seq![HashWarning::HashMismatch(HashLevel::H2, g as u32)]
    } else {
        Seq::<HashWarning>::empty()
    }) + (if !h3_ok(plain, h3_entry) {
        seq![HashWarning::HashMismatch(HashLevel::H3, g as u32)]
    } else {
        Seq::<HashWarning>::empty()
    })
}

/// The all-zero CBC initialization vector.
pub open spec fn zero_iv() -> Seq<u8> {
    Seq::new(16, |i: int| 0u8)
}

/// A decrypted, seekable byte stream over one Wii partition's user area.
pub struct PartitionReader<'a> {
    /// The disc reader the partition lives on.
    pub disc: &'a DiscReader,
    /// The partition's table entry.
    pub info: PartitionInfo,
    /// The decrypted title key.
    pub title_key: Vec<u8>,
    /// Whether the partition data is encrypted.
    pub encrypted: bool,
    /// Whether the partition data carries the hash tree.
    pub has_hashes: bool,
    /// Whether reads validate the hash tree.
    pub validate: bool,
    /// The stream cursor, in plaintext bytes.
    pub pos: u64,
    /// Hash-mismatch warnings collected while reading.
    pub warnings: Vec<HashWarning>,
    /// The most recently decrypted hash block and its plaintext: sequential
    /// reads within one block do no new crypto work, and re-reads of a
    /// validated block report no duplicate warnings.
    pub cache: Option<(u64, Vec<u8>)>,
}

impl<'a> PartitionReader<'a> {
    /// Reader well-formedness: sound bounds, and a cache that holds exactly
    /// the plaintext of the block it names.
    pub open spec fn wf(&self) -> bool {
        &&& self.disc.wf()
        &&& self.title_key@.len() == 16
        &&& self.info.data_start_sector <= self.info.data_end_sector < 0x2000000
        &&& self.info.start_sector < 0x2000000
        &&& self.info.header.h3_table_off < 0x400000000
        &&& self.info.header.tmd_off < 0x400000000
        &&& self.info.header.cert_chain_off < 0x400000000
        &&& match self.cache {
            Some(c) => c.1@ == self.group_plain(c.0 as int) && c.1@.len() == BLOCK_FULL_SIZE,
            None => true,
        }
    }

    /// The reader's cache already holds hash block `g`.
    pub open spec fn cache_hit(&self, g: u64) -> bool {
        match self.cache {
            Some(c) => c.0 == g,
            None => false,
        }
    }

    /// The disc byte offset at which hash block `g`'s ciphertext begins.
    pub open spec fn group_off(&self, g: int) -> int {
        self.info.data_start_sector * 2048 + g * BLOCK_FULL_SIZE
    }

    /// Hash block `g`'s 32 KiB of stored (possibly encrypted) bytes.
    pub open spec fn group_cipher(&self, g: int) -> Seq<u8> {
        Seq::new(BLOCK_FULL_SIZE as nat, |i: int| self.disc.byte_at(self.group_off(g) + i))
    }

    /// Hash block `g` in plaintext: the 1024-byte hash section decrypted with
    /// a zero IV, then the user data decrypted with the last 16 hash-section
    /// bytes as IV; stored bytes pass through when the partition is not
    /// encrypted.
    pub open spec fn group_plain(&self, g: int) -> Seq<u8> {
        if !self.encrypted {
            self.group_cipher(g)
        } else {
            let c = self.group_cipher(g);
            let hashes = cbc_dec(self.title_key@, zero_iv(), c.take(1024));
            hashes + cbc_dec(self.title_key@, hashes.subrange(0x3D0, 0x3E0), c.skip(1024))
        }
    }

    /// Plaintext byte `o` of the partition's user area: the hash-block
    /// structure is stripped when present.
    pub open spec fn part_byte(&self, o: int) -> u8 {
        if self.has_hashes {
            self.group_plain(o / BLOCK_DATA_SIZE as int)[1024 + o % BLOCK_DATA_SIZE as int]
        } else {
            self.disc.byte_at(self.info.data_start_sector * 2048 + o)
        }
    }

    /// The plaintext bytes `off..off + len` of the partition's user area.
    pub open spec fn plain_range(&self, off: int, len: int) -> Seq<u8> {
        Seq::new(len as nat, |k: int| self.part_byte(off + k))
    }

    /// The partition's user size: the data area, less the hash sections when
    /// present.
    pub open spec fn spec_user_size(&self) -> int {
        let data_len = (self.info.data_end_sector - self.info.data_start_sector) * 2048;
        if self.has_hashes {
            (data_len / BLOCK_FULL_SIZE as int) * BLOCK_DATA_SIZE as int
        } else {
            data_len
        }
    }

    /// The partition's user size in plaintext bytes.
    pub fn user_size(&self) -> (r: u64)
        requires
            self.wf(),
        ensures
            r == self.spec_user_size(),
    {
        let data_len = (self.info.data_end_sector - self.info.data_start_sector) as u64 * 2048;
        proof {
            assert(data_len <= 0x2000000 * 2048);
            assert(data_len / BLOCK_FULL_SIZE as u64 <= data_len / 32768);
        }
        if self.has_hashes {
            (data_len / BLOCK_FULL_SIZE as u64) * BLOCK_DATA_SIZE as u64
        } else {
            data_len
        }
    }

    /// The partition's natural read stride: one hash block of user data.
    pub fn ideal_buffer_size(&self) -> (r: usize)
        ensures
            r == BLOCK_DATA_SIZE,
    {
        BLOCK_DATA_SIZE
    }

    /// Hash-mismatch warnings collected so far.
    pub fn warnings(&self) -> (r: &Vec<HashWarning>)
        ensures
            r == &self.warnings,
    {
        &self.warnings
    }

    /// Moves the plaintext cursor.
    pub fn seek(&mut self, pos: u64) -> (r: u64)
        ensures
            *final(self) == (PartitionReader { pos, ..*old(self) }),
            r == pos,
    {
        self.pos = pos;
        pos
    }

    /// The plaintext cursor.
    pub fn position(&self) -> (r: u64)
        ensures
            r == self.pos,
    {
        self.pos
    }

    /// Decrypts hash block `g` and returns its full 32 KiB plaintext; with
    /// validation enabled, appends one warning per hash level that fails for
    /// this block.
    fn read_group(&mut self, g: u64) -> (r: Vec<u8>)
        requires
            old(self).wf(),
            g < 0x2000000,
        ensures
            final(self).wf(),
            self_unchanged_but_warnings(old(self), final(self)),
            r@ == old(self).group_plain(g as int),
            r@.len() == BLOCK_FULL_SIZE,
            old(self).warnings@.is_prefix_of(final(self).warnings@),
            !(old(self).validate && old(self).has_hashes) || old(self).cache_hit(g)
                ==> final(self).warnings@ == old(self).warnings@,
            old(self).validate && old(self).has_hashes && !old(self).cache_hit(g)
                ==> final(self).warnings@ == old(self).warnings@ + group_warnings(
                old(self).group_plain(g as int),
                g as int,
                old(self).h3_entry(g as int),
            ),
    {
        if let Some((cg, cached)) = &self.cache {
            if *cg == g {
                return copy_range(cached.as_slice(), 0, BLOCK_FULL_SIZE);
            }
        }
        proof {
            assert(g as int * BLOCK_FULL_SIZE as int <= 0x2000000 * 32768);
        }
        let goff: u64 = self.info.data_start_sector as u64 * 2048 + g * BLOCK_FULL_SIZE as u64;
        let cipher = self.disc.read_at(goff, BLOCK_FULL_SIZE);
        proof {
            assert(cipher@ =~= old(self).group_cipher(g as int));
        }
        let plain: Vec<u8> = if self.encrypted {
            let hash_ct = copy_range(cipher.as_slice(), 0, 1024);
            let ziv = zero_vec(16);
            let hashes = cbc_decrypt(self.title_key.as_slice(), ziv.as_slice(), hash_ct.as_slice());
            let iv = copy_range(hashes.as_slice(), 0x3D0, 16);
            let data_ct = copy_range(cipher.as_slice(), 1024, BLOCK_FULL_SIZE - 1024);
            let data = cbc_decrypt(self.title_key.as_slice(), iv.as_slice(), data_ct.as_slice());
            let mut out = hashes;
            append_bytes(&mut out, data.as_slice());
            proof {
                let c = old(self).group_cipher(g as int);
                assert(hash_ct@ =~= c.take(1024));
                assert(data_ct@ =~= c.skip(1024));
                assert(ziv@ =~= zero_iv());
                assert(iv@ =~= cbc_dec(old(self).title_key@, zero_iv(), c.take(1024)).subrange(
                    0x3D0,
                    0x3E0,
                ));
                assert(out@ =~= old(self).group_plain(g as int));
            }
            out
        } else {
            cipher
        };
        let cached_copy = copy_range(plain.as_slice(), 0, BLOCK_FULL_SIZE);
        proof {
            assert(cached_copy@ =~= plain@);
        }
        self.cache = Some((g, cached_copy));
        proof {
            assert(self.group_cipher(g as int) =~= old(self).group_cipher(g as int));
            assert(self.group_plain(g as int) == old(self).group_plain(g as int));
        }
        if self.validate && self.has_hashes {
            let ghost before = *self;
            self.validate_group(&plain, g);
            proof {
                assert(before.h3_entry(g as int) =~= old(self).h3_entry(g as int));
                assert(self.group_cipher(g as int) =~= before.group_cipher(g as int));
                assert(self.group_plain(g as int) == before.group_plain(g as int));
            }
        }
        plain
    }

    /// The stored H3 entry covering hash block `g`.
    pub open spec fn h3_entry(&self, g: int) -> Seq<u8> {
        Seq::new(
            20,
            |i: int|
                self.disc.byte_at(
                    self.info.start_sector * 2048 + self.info.header.h3_table_off + (g / 64) * 20
                        + i,
                ),
        )
    }

    /// Checks the H0, H1 and H2 entries of one decrypted hash block against
    /// its contents, and the H2 table against the partition's stored H3
    /// entry; appends exactly one warning per failing level.
    fn validate_group(&mut self, plain: &Vec<u8>, g: u64)
        requires
            old(self).wf(),
            plain@.len() == BLOCK_FULL_SIZE,
            g < 0x2000000,
        ensures
            self_unchanged_but_warnings(old(self), final(self)),
            final(self).cache == old(self).cache,
            final(self).warnings@ == old(self).warnings@ + group_warnings(
                plain@,
                g as int,
                old(self).h3_entry(g as int),
            ),
            old(self).warnings@.is_prefix_of(final(self).warnings@),
    {
        // H0: each 1024-byte user chunk hashes to its H0 entry.
        let mut h0_all = true;
        let mut i: usize = 0;
        while i < 31
            invariant
                i <= 31,
                plain@.len() == BLOCK_FULL_SIZE,
                h0_all == (forall|j: int|
                    0 <= j < i ==> #[trigger] sha1_of(
                        plain@.subrange(1024 + j * 1024, 1024 + j * 1024 + 1024),
                    ) == plain@.subrange(j * 20, j * 20 + 20)),
            decreases 31 - i,
        {
            let chunk = copy_range(plain.as_slice(), 1024 + i * 1024, 1024);
            let digest = sha1_digest(chunk.as_slice());
            let expect = copy_range(plain.as_slice(), i * 20, 20);
            if !bytes_eq(digest.as_slice(), expect.as_slice()) {
                h0_all = false;
            }
            i = i + 1;
        }
        if !h0_all {
            self.warnings.push(HashWarning::HashMismatch(HashLevel::H0, g as u32));
        }
        // H1: the H0 table hashes to entry g mod 8 of the H1 table.
        let h0_table = copy_range(plain.as_slice(), 0, 0x26C);
        let h1_digest = sha1_digest(h0_table.as_slice());
        let h1_entry = copy_range(plain.as_slice(), 0x280 + (g % 8) as usize * 20, 20);
        if !bytes_eq(h1_digest.as_slice(), h1_entry.as_slice()) {
            self.warnings.push(HashWarning::HashMismatch(HashLevel::H1, g as u32));
        }
        // H2: the H1 table hashes to entry (g / 8) mod 8 of the H2 table.
        let h1_table = copy_range(plain.as_slice(), 0x280, 0xA0);
        let h2_digest = sha1_digest(h1_table.as_slice());
        let h2_entry = copy_range(plain.as_slice(), 0x340 + ((g / 8) % 8) as usize * 20, 20);
        if !bytes_eq(h2_digest.as_slice(), h2_entry.as_slice()) {
            self.warnings.push(HashWarning::HashMismatch(HashLevel::H2, g as u32));
        }
        // H3: the H2 table hashes to entry g / 64 of the stored H3 table.
        let h2_table = copy_range(plain.as_slice(), 0x340, 0xA0);
        let h3_digest = sha1_digest(h2_table.as_slice());
        let h3_off: u64 = self.info.start_sector as u64 * 2048 + self.info.header.h3_table_off + (g
            / 64) * 20;
        let h3_entry = self.disc.read_at(h3_off, 20);
        proof {
            assert(h3_entry@ =~= old(self).h3_entry(g as int));
            assert(h1_table@ =~= plain@.subrange(0x280, 0x320));
        }
        if !bytes_eq(h3_digest.as_slice(), h3_entry.as_slice()) {
            self.warnings.push(HashWarning::HashMismatch(HashLevel::H3, g as u32));
        }
        proof {
            assert(self.warnings@ =~= old(self).warnings@ + group_warnings(
                plain@,
                g as int,
                old(self).h3_entry(g as int),
            ));
        }
    }

    /// Reads up to `n` plaintext bytes at the cursor: exactly byte `pos + k`
    /// of the decrypted user area, short only at its end. With hash
    /// validation enabled, warnings accumulate for the hash blocks touched.
    pub fn read(&mut self, n: usize) -> (r: Vec<u8>)
        requires
            old(self).wf(),
        ensures
            final(self).wf(),
            self_unchanged_but_cursor(old(self), final(self)),
            old(self).warnings@.is_prefix_of(final(self).warnings@),
            r@.len() == (if old(self).pos + n <= old(self).spec_user_size() {
                n as int
            } else if old(self).pos <= old(self).spec_user_size() {
                old(self).spec_user_size() - old(self).pos
            } else {
                0
            }),
            forall|k: int| 0 <= k < r@.len() ==> r@[k] == old(self).part_byte(old(self).pos + k),
            final(self).pos == old(self).pos + r@.len(),
    {
        let total = self.user_size();
        if self.pos >= total {
            return Vec::new();
        }
        let take: usize = if total - self.pos < n as u64 {
            (total - self.pos) as usize
        } else {
            n
        };
        let ghost pos0 = self.pos;
        let mut out: Vec<u8> = Vec::new();
        if !self.has_hashes {
            let base = self.info.data_start_sector as u64 * 2048;
            out = self.disc.read_at(base + self.pos, take);
            proof {
                assert forall|k: int| 0 <= k < take implies out@[k] == old(self).part_byte(
                    pos0 + k,
                ) by {}
            }
        } else {
            while out.len() < take
                invariant
                    old(self).wf(),
                    self.wf(),
                    old(self).has_hashes,
                    self_unchanged_but_warnings(old(self), self),
                    self.pos == pos0,
                    out@.len() <= take,
                    pos0 + take <= self.spec_user_size(),
                    take <= self.spec_user_size(),
                    self.spec_user_size() <= 0x2000000 * 2048,
                    old(self).warnings@.is_prefix_of(self.warnings@),
                    forall|k: int| 0 <= k < out@.len() ==> out@[k] == old(self).part_byte(pos0 + k),
                decreases take - out@.len(),
            {
                let done = out.len();
                let p = self.pos + done as u64;
                let g = p / BLOCK_DATA_SIZE as u64;
                let within = (p % BLOCK_DATA_SIZE as u64) as usize;
                proof {
                    vstd::arithmetic::div_mod::lemma_fundamental_div_mod(
                        p as int,
                        BLOCK_DATA_SIZE as int,
                    );
                    assert(p < 0x2000000 * 2048);
                    assert(g <= p / 31744);
                }
                let ghost at_call = *self;
                let grp = self.read_group(g);
                proof {
                    assert(at_call.group_cipher(g as int) =~= old(self).group_cipher(g as int));
                    assert(grp@ == old(self).group_plain(g as int));
                }
                let room = BLOCK_DATA_SIZE - within;
                let want = take - done;
                let chunk = if room < want {
                    room
                } else {
                    want
                };
                let part = copy_range(grp.as_slice(), 1024 + within, chunk);
                proof {
                    assert forall|j: int| 0 <= j < chunk implies part@[j] == old(self).part_byte(
                        pos0 + done + j,
                    ) by {
                        let o = p as int + j;
                        assert(0 <= within + j < BLOCK_DATA_SIZE as int);
                        assert(o == g as int * BLOCK_DATA_SIZE as int + (within + j));
                        vstd::arithmetic::div_mod::lemma_fundamental_div_mod_converse(
                            o,
                            BLOCK_DATA_SIZE as int,
                            g as int,
                            within + j,
                        );
                        assert(o / BLOCK_DATA_SIZE as int == g as int);
                        assert(o % BLOCK_DATA_SIZE as int == within + j);
                        assert(part@[j] == grp@[1024 + within + j]);
                        assert(part@[j] == old(self).group_plain(g as int)[1024 + within + j]);
                        assert(old(self).has_hashes);
                        assert(old(self).part_byte(o) == old(self).group_plain(o / BLOCK_DATA_SIZE as int)[1024 + o % BLOCK_DATA_SIZE as int]);
                        assert(pos0 + done + j == o);
                    }
                }
                append_bytes(&mut out, part.as_slice());
            }
        }
        self.pos = self.pos + take as u64;
        out
    }
}

/// The two readers agree on everything but the collected warnings.
pub open spec fn self_unchanged_but_warnings(a: &PartitionReader, b: &PartitionReader) -> bool {
    &&& b.disc == a.disc
    &&& b.info == a.info
    &&& b.title_key@ == a.title_key@
    &&& b.encrypted == a.encrypted
    &&& b.has_hashes == a.has_hashes
    &&& b.validate == a.validate
    &&& b.pos == a.pos
}

/// The two readers agree on everything but the cursor and the collected
/// warnings.
pub open spec fn self_unchanged_but_cursor(a: &PartitionReader, b: &PartitionReader) -> bool {
    &&& b.disc == a.disc
    &&& b.info == a.info
    &&& b.title_key@ == a.title_key@
    &&& b.encrypted == a.encrypted
    &&& b.has_hashes == a.has_hashes
    &&& b.validate == a.validate
}

/// Whether two byte strings are equal.
pub fn bytes_eq(a: &[u8], b: &[u8]) -> (r: bool)
    ensures
        r == (a@ == b@),
{
    let n = a.len();
    if n != b.len() {
        proof {
            assert(a@ != b@);
        }
        return false;
    }
    let mut i: usize = 0;
    while i < n
        invariant
            i <= n,
            n == a@.len() == b@.len(),
            forall|j: int| 0 <= j < i ==> a@[j] == b@[j],
        decreases n - i,
    {
        if a[i] != b[i] {
            return false;
        }
        i = i + 1;
    }
    proof {
        assert(a@ =~= b@);
    }
    true
}

/// The AES-128 common key bytes for a ticket key index.
pub open spec fn spec_common_key(index: u8) -> Seq<u8> {
    if index == 0 {
        seq![
            0xebu8, 0xe4, 0x2a, 0x22, 0x5e, 0x85, 0x93, 0xe4, 0x48, 0xd9, 0xc5, 0x45, 0x73, 0x81,
            0xaa, 0xf7,
        ]
    } else if index == 1 {
        seq![
            0x63u8, 0xb8, 0x2b, 0xb4, 0xf4, 0x61, 0x4e, 0x2e, 0x13, 0xf2, 0xfe, 0xfb, 0xba, 0x4c,
            0x9b, 0x7e,
        ]
    } else {
        seq![
            0x30u8, 0xbf, 0xc7, 0x6e, 0x7c, 0x19, 0xaf, 0xbb, 0x23, 0x16, 0x33, 0x30, 0xce, 0xd7,
            0xc2, 0x8d,
        ]
    }
}

/// The partition-table entry's offsets and sectors lie within the ranges the
/// reader addresses.
pub open spec fn entry_in_range(info: PartitionInfo) -> bool {
    &&& info.data_start_sector <= info.data_end_sector
    &&& info.data_end_sector < 0x2000000
    &&& info.start_sector < 0x2000000
    &&& info.header.h3_table_off < 0x400000000
    &&& info.header.tmd_off < 0x400000000
    &&& info.header.cert_chain_off < 0x400000000
}

/// A Wii partition opens exactly when the index names a table entry, the
/// entry is in range, and, on an encrypted disc, the ticket names a known
/// common key.
pub open spec fn partition_opens(disc: &DiscReader, index: int) -> bool {
    &&& 0 <= index < disc.partitions@.len()
    &&& entry_in_range(disc.partitions@[index])
    &&& (disc.header.no_partition_encryption == 0 ==> ticket_byte(
        disc,
        disc.partitions@[index].start_sector as int,
        0x1F1,
    ) <= 2)
}

/// The ticket byte at offset `i` of the partition starting at `start`.
pub open spec fn ticket_byte(disc: &DiscReader, start: int, i: int) -> u8 {
    disc.byte_at(start * 2048 + i)
}

/// The decrypted title key of the partition starting at sector `start`: the
/// wrapped key at ticket offset 0x1BF, decrypted under the common key the
/// ticket names at 0x1F1, with the title id at 0x1DC followed by zeros as
/// IV.
pub open spec fn spec_title_key(disc: &DiscReader, start: int) -> Seq<u8> {
    cbc_dec(
        spec_common_key(ticket_byte(disc, start, 0x1F1)),
        Seq::new(
            16,
            |i: int|
                if i < 8 {
                    ticket_byte(disc, start, 0x1DC + i)
                } else {
                    0u8
                },
        ),
        Seq::new(16, |i: int| ticket_byte(disc, start, 0x1BF + i)),
    )
}

/// The AES-128 common key that decrypts title keys, selected by the ticket's
/// key index: retail, Korean, or vWii.
pub fn common_key(index: u8) -> (r: Result<Vec<u8>>)
    ensures
        r is Ok <==> index <= 2,
        r is Ok ==> (r->Ok_0)@.len() == 16 && (r->Ok_0)@ == spec_common_key(index),
{
    if index == 0 {
        Ok(vec![
            0xeb, 0xe4, 0x2a, 0x22, 0x5e, 0x85, 0x93, 0xe4, 0x48, 0xd9, 0xc5, 0x45, 0x73, 0x81,
            0xaa, 0xf7,
        ])
    } else if index == 1 {
        Ok(vec![
            0x63, 0xb8, 0x2b, 0xb4, 0xf4, 0x61, 0x4e, 0x2e, 0x13, 0xf2, 0xfe, 0xfb, 0xba, 0x4c,
            0x9b, 0x7e,
        ])
    } else if index == 2 {
        Ok(vec![
            0x30, 0xbf, 0xc7, 0x6e, 0x7c, 0x19, 0xaf, 0xbb, 0x23, 0x16, 0x33, 0x30, 0xce, 0xd7,
            0xc2, 0x8d,
        ])
    } else {
        Err(Error::DiscFormat("unsupported common key index".to_owned()))
    }
}

impl<'a> PartitionReader<'a> {
    /// Opens a decrypted read stream over partition `index` of `disc`.
    ///
    /// For GameCube the only partition is the whole disc, unencrypted and
    /// without hashes; `index` must be 0. For Wii the partition table entry
    /// is taken, the 0x2A4-byte ticket is read from the partition start, and
    /// the title key is decrypted from it with the common key the ticket
    /// names (IV: the title id followed by zeros). Fails exactly on an index
    /// with no partition, a partition whose table entry is out of range, or
    /// an unknown common key index.
    pub fn new(disc: &'a DiscReader, index: usize, options: &OpenOptions) -> (r: Result<
        PartitionReader<'a>,
    >)
        requires
            disc.wf(),
        ensures
            r is Ok ==> (r->Ok_0).wf(),
            r is Ok ==> (r->Ok_0).disc == disc,
            r is Ok ==> (r->Ok_0).pos == 0,
            r is Ok ==> (r->Ok_0).warnings@.len() == 0,
            r is Ok ==> (r->Ok_0).validate == options.validate_hashes,
            disc.header.wii_magic == crate::common::WII_MAGIC ==> (r is Ok ==> index
                < disc.partitions@.len() && (r->Ok_0).info == disc.partitions@[index as int]
                && (r->Ok_0).encrypted == (disc.header.no_partition_encryption == 0)
                && (r->Ok_0).has_hashes == (disc.header.no_partition_hashes == 0)),
            r is Ok && (r->Ok_0).encrypted ==> (r->Ok_0).title_key@ == spec_title_key(
                disc,
                (r->Ok_0).info.start_sector as int,
            ),
            disc.header.wii_magic == crate::common::WII_MAGIC ==> (r is Ok <==> partition_opens(
                disc,
                index as int,
            )),
            !(disc.header.wii_magic == crate::common::WII_MAGIC) ==> (r is Ok <==> index == 0),
            !(disc.header.wii_magic == crate::common::WII_MAGIC) ==> (r is Ok ==> !(r->Ok_0).encrypted
                && !(r->Ok_0).has_hashes && (r->Ok_0).info.data_start_sector == 0),
    {
        if !disc.header().is_wii() {
            if index != 0 {
                return Err(Error::DiscFormat("invalid partition index".to_owned()));
            }
            let end_sector: u32 = if disc.disc_size() / 2048 > 0x1FFFFFF {
                0x1FFFFFF
            } else {
                (disc.disc_size() / 2048) as u32
            };
            let info = PartitionInfo {
                index: 0,
                kind: crate::common::PartitionKind::Data,
                start_sector: 0,
                data_start_sector: 0,
                data_end_sector: end_sector,
                header: crate::common::PartitionHeader {
                    tmd_size: 0,
                    tmd_off: 0,
                    cert_chain_size: 0,
                    cert_chain_off: 0,
                    h3_table_off: 0,
                    data_off: 0,
                    data_size: 0,
                },
            };
            return Ok(PartitionReader {
                disc,
                info,
                title_key: zero_vec(16),
                encrypted: false,
                has_hashes: false,
                validate: options.validate_hashes,
                pos: 0,
                warnings: Vec::new(),
                cache: None,
            });
        }
        if index >= disc.partitions.len() {
            return Err(Error::DiscFormat("invalid partition index".to_owned()));
        }
        let info = disc.partitions[index];
        if !(info.data_start_sector <= info.data_end_sector && info.data_end_sector < 0x2000000
            && info.start_sector < 0x2000000 && info.header.h3_table_off < 0x400000000
            && info.header.tmd_off < 0x400000000 && info.header.cert_chain_off < 0x400000000) {
            return Err(Error::DiscFormat("partition table entry out of range".to_owned()));
        }
        let encrypted = disc.header.no_partition_encryption == 0;
        let has_hashes = disc.header.no_partition_hashes == 0;
        let title_key: Vec<u8> = if encrypted {
            let ticket = disc.read_at(info.start_sector as u64 * 2048, 0x2A4);
            let key_enc = copy_range(ticket.as_slice(), 0x1BF, 16);
            let mut iv = copy_range(ticket.as_slice(), 0x1DC, 8);
            append_bytes(&mut iv, zero_vec(8).as_slice());
            let ck = match common_key(ticket[0x1F1]) {
                Ok(k) => k,
                Err(e) => {
                    return Err(e);
                },
            };
            proof {
                let start = info.start_sector as int;
                assert(iv@ =~= Seq::new(
                    16,
                    |i: int|
                        if i < 8 {
                            ticket_byte(disc, start, 0x1DC + i)
                        } else {
                            0u8
                        },
                ));
                assert(key_enc@ =~= Seq::new(16, |i: int| ticket_byte(disc, start, 0x1BF + i)));
            }
            cbc_decrypt(ck.as_slice(), iv.as_slice(), key_enc.as_slice())
        } else {
            zero_vec(16)
        };
        Ok(PartitionReader {
            disc,
            info,
            title_key,
            encrypted,
            has_hashes,
            validate: options.validate_hashes,
            pos: 0,
            warnings: Vec::new(),
            cache: None,
        })
    }

    /// The 32-bit big-endian plaintext value at partition offset `o`.
    pub open spec fn plain_be32(&self, o: int) -> int {
        self.part_byte(o) * 0x1000000 + self.part_byte(o + 1) * 0x10000 + self.part_byte(o + 2)
            * 0x100 + self.part_byte(o + 3)
    }

    /// The raw disc bytes `off..off + len` (not decrypted).
    pub open spec fn disc_range(&self, off: int, len: int) -> Seq<u8> {
        Seq::new(len as nat, |i: int| self.disc.byte_at(off + i))
    }

    /// The boot-header offset shift: stored offsets are quartered on Wii.
    pub open spec fn shift_of(&self) -> int {
        if self.has_hashes {
            4
        } else {
            1
        }
    }

    /// The apploader's byte size: its header plus the code and trailer sizes
    /// the header states.
    pub open spec fn apl_size_of(&self) -> int {
        0x20 + self.plain_be32(0x2454) + self.plain_be32(0x2458)
    }

    /// Where the boot header places the DOL.
    pub open spec fn dol_off_of(&self) -> int {
        self.plain_be32(0x420) * self.shift_of()
    }

    /// The largest end among the DOL's first `k` segment extents (its header
    /// is always included).
    pub open spec fn dol_seg_end(&self, doff: int, k: int) -> int
        decreases k,
    {
        if k <= 0 {
            0x100
        } else {
            let off_field: int = if k - 1 < 7 {
                (k - 1) * 4
            } else {
                0x1C + (k - 1 - 7) * 4
            };
            let size_field: int = if k - 1 < 7 {
                0x90 + (k - 1) * 4
            } else {
                0xAC + (k - 1 - 7) * 4
            };
            let e = self.plain_be32(doff + off_field) + self.plain_be32(doff + size_field);
            let rest = self.dol_seg_end(doff, k - 1);
            if e > rest {
                e
            } else {
                rest
            }
        }
    }

    /// The DOL's byte size: the furthest extent of its text and data
    /// segments.
    pub open spec fn dol_size_of(&self) -> int {
        self.dol_seg_end(self.dol_off_of(), 18)
    }

    /// Where the boot header places the FST.
    pub open spec fn fst_off_of(&self) -> int {
        self.plain_be32(0x424) * self.shift_of()
    }

    /// The FST's byte size per the boot header.
    pub open spec fn fst_size_of(&self) -> int {
        self.plain_be32(0x428) * self.shift_of()
    }

    /// The metadata regions all lie inside the partition's user area and
    /// within their size caps.
    pub open spec fn meta_ok(&self) -> bool {
        &&& 0x440 <= self.spec_user_size()
        &&& 0x2440 <= self.spec_user_size()
        &&& 0x2440 + 0x20 <= self.spec_user_size()
        &&& self.apl_size_of() <= 0x2000000
        &&& 0x2440 + self.apl_size_of() <= self.spec_user_size()
        &&& self.dol_off_of() + 0x100 <= self.spec_user_size()
        &&& self.dol_size_of() <= 0x2000000
        &&& self.dol_off_of() + self.dol_size_of() <= self.spec_user_size()
        &&& self.fst_size_of() <= 0x10000000
        &&& self.fst_off_of() + self.fst_size_of() <= self.spec_user_size()
    }

    /// Reads `len` plaintext bytes at `off`, failing on a short read.
    fn read_plain_at(&mut self, off: u64, len: usize) -> (r: Result<Vec<u8>>)
        requires
            old(self).wf(),
        ensures
            final(self).wf(),
            self_unchanged_but_cursor(old(self), final(self)),
            final(self).pos == old(self).pos,
            old(self).warnings@.is_prefix_of(final(self).warnings@),
            r is Ok <==> off + len <= old(self).spec_user_size(),
            r is Ok ==> (r->Ok_0)@ == old(self).plain_range(off as int, len as int),
    {
        let total = self.user_size();
        if off > total || len as u64 > total - off {
            return Err(Error::DiscFormat("unexpected end of partition data".to_owned()));
        }
        let save = self.pos;
        self.pos = off;
        let out = self.read(len);
        self.pos = save;
        proof {
            assert(out@ =~= old(self).plain_range(off as int, len as int));
        }
        Ok(out)
    }

    /// Reads and slices the partition's metadata: boot, bi2, the apploader
    /// (sized from its header), the DOL (sized from its segment extents), the
    /// FST (placed by the boot header), and, on Wii, the raw ticket, TMD,
    /// certificate chain and H3 table from the partition header's offsets.
    ///
    /// Fails exactly when some region runs past the partition's user area or
    /// past its size cap.
    #[verifier::rlimit(100)]
    pub fn meta(&mut self) -> (r: Result<PartitionMeta>)
        requires
            old(self).wf(),
        ensures
            final(self).wf(),
            self_unchanged_but_cursor(old(self), final(self)),
            final(self).pos == old(self).pos,
            old(self).warnings@.is_prefix_of(final(self).warnings@),
            r is Ok <==> old(self).meta_ok(),
            r is Ok ==> (r->Ok_0).raw_boot@ == old(self).plain_range(0, 0x440),
            r is Ok ==> (r->Ok_0).raw_bi2@ == old(self).plain_range(0x440, 0x2000),
            r is Ok ==> (r->Ok_0).raw_apploader@ == old(self).plain_range(
                0x2440,
                old(self).apl_size_of(),
            ),
            r is Ok ==> (r->Ok_0).raw_dol@ == old(self).plain_range(
                old(self).dol_off_of(),
                old(self).dol_size_of(),
            ),
            r is Ok ==> (r->Ok_0).raw_fst@ == old(self).plain_range(
                old(self).fst_off_of(),
                old(self).fst_size_of(),
            ),
            r is Ok ==> ((r->Ok_0).raw_ticket is Some <==> old(self).has_hashes || old(
                self,
            ).encrypted),
            r is Ok && (r->Ok_0).raw_ticket is Some ==> (r->Ok_0).raw_ticket->0@ == old(
                self,
            ).disc_range(old(self).info.start_sector * 2048, 0x2A4),
            r is Ok && (r->Ok_0).raw_tmd is Some ==> (r->Ok_0).raw_tmd->0@ == old(self).disc_range(
                old(self).info.start_sector * 2048 + old(self).info.header.tmd_off,
                if old(self).info.header.tmd_size > 0x2000000 {
                    0x2000000int
                } else {
                    old(self).info.header.tmd_size as int
                },
            ),
            r is Ok && (r->Ok_0).raw_cert_chain is Some ==> (r->Ok_0).raw_cert_chain->0@ == old(
                self,
            ).disc_range(
                old(self).info.start_sector * 2048 + old(self).info.header.cert_chain_off,
                if old(self).info.header.cert_chain_size > 0x2000000 {
                    0x2000000int
                } else {
                    old(self).info.header.cert_chain_size as int
                },
            ),
            r is Ok && (r->Ok_0).raw_h3_table is Some ==> (r->Ok_0).raw_h3_table->0@ == old(
                self,
            ).disc_range(
                old(self).info.start_sector * 2048 + old(self).info.header.h3_table_off,
                H3_TABLE_SIZE as int,
            ),
            r is Ok ==> ((r->Ok_0).raw_tmd is Some <==> old(self).has_hashes || old(
                self,
            ).encrypted),
            r is Ok ==> ((r->Ok_0).raw_cert_chain is Some <==> old(self).has_hashes || old(
                self,
            ).encrypted),
            r is Ok ==> ((r->Ok_0).raw_h3_table is Some <==> old(self).has_hashes || old(
                self,
            ).encrypted),
    {
        let boot = match self.read_plain_at(0, 0x440) {
            Ok(v) => v,
            Err(e) => {
                return Err(e);
            },
        };
        let bi2 = match self.read_plain_at(0x440, 0x2000) {
            Ok(v) => v,
            Err(e) => {
                return Err(e);
            },
        };
        // Apploader: header carries the code and trailer sizes.
        let apl_hdr = match self.read_plain_at(0x2440, 0x20) {
            Ok(v) => v,
            Err(e) => {
                return Err(e);
            },
        };
        let apl_size: u64 = 0x20 + read_u32_be(apl_hdr.as_slice(), 0x14) as u64 + read_u32_be(
            apl_hdr.as_slice(),
            0x18,
        ) as u64;
        if apl_size > 0x2000000 {
            return Err(Error::DiscFormat("apploader size out of range".to_owned()));
        }
        let apploader = match self.read_plain_at(0x2440, apl_size as usize) {
            Ok(v) => v,
            Err(e) => {
                return Err(e);
            },
        };
        // Offsets in the boot header are stored shifted right by 2 on Wii.
        let shift: u64 = if self.has_hashes {
            4
        } else {
            1
        };
        // DOL: sized from its text and data segment extents.
        let dol_off = read_u32_be(boot.as_slice(), 0x420) as u64 * shift;
        let dol_hdr = match self.read_plain_at(dol_off, 0x100) {
            Ok(v) => v,
            Err(e) => {
                return Err(e);
            },
        };
        let mut dol_size: u64 = 0x100;
        let mut seg: usize = 0;
        while seg < 18
            invariant
                seg <= 18,
                old(self).wf(),
                self_unchanged_but_cursor(old(self), self),
                dol_hdr@.len() == 0x100,
                dol_hdr@ == old(self).plain_range(old(self).dol_off_of(), 0x100),
                dol_off == old(self).dol_off_of(),
                dol_size == old(self).dol_seg_end(old(self).dol_off_of(), seg as int),
                dol_size <= 0x100 + 18 * 0x200000000,
            decreases 18 - seg,
        {
            let off_field: usize = if seg < 7 {
                seg * 4
            } else {
                0x1C + (seg - 7) * 4
            };
            let size_field: usize = if seg < 7 {
                0x90 + seg * 4
            } else {
                0xAC + (seg - 7) * 4
            };
            let end = read_u32_be(dol_hdr.as_slice(), off_field) as u64 + read_u32_be(
                dol_hdr.as_slice(),
                size_field,
            ) as u64;
            if end > dol_size {
                dol_size = end;
            }
            seg = seg + 1;
        }
        if dol_size > 0x2000000 {
            return Err(Error::DiscFormat("DOL size out of range".to_owned()));
        }
        let dol = match self.read_plain_at(dol_off, dol_size as usize) {
            Ok(v) => v,
            Err(e) => {
                return Err(e);
            },
        };
        // FST: placed and sized by the boot header.
        let fst_off = read_u32_be(boot.as_slice(), 0x424) as u64 * shift;
        let fst_size = read_u32_be(boot.as_slice(), 0x428) as u64 * shift;
        if fst_size > 0x10000000 {
            return Err(Error::DiscFormat("FST size out of range".to_owned()));
        }
        let raw_fst = match self.read_plain_at(fst_off, fst_size as usize) {
            Ok(v) => v,
            Err(e) => {
                return Err(e);
            },
        };
        // Wii: raw metadata regions from the partition header.
        let (ticket, tmd, cert, h3) = if self.has_hashes || self.encrypted {
            let start = self.info.start_sector as u64 * 2048;
            let ticket = self.disc.read_at(start, 0x2A4);
            let tmd = self.disc.read_at(
                start + self.info.header.tmd_off,
                if self.info.header.tmd_size > 0x2000000 {
                    0x2000000
                } else {
                    self.info.header.tmd_size as usize
                },
            );
            let cert = self.disc.read_at(
                start + self.info.header.cert_chain_off,
                if self.info.header.cert_chain_size > 0x2000000 {
                    0x2000000
                } else {
                    self.info.header.cert_chain_size as usize
                },
            );
            let h3 = self.disc.read_at(start + self.info.header.h3_table_off, H3_TABLE_SIZE);
            (Some(ticket), Some(tmd), Some(cert), Some(h3))
        } else {
            (None, None, None, None)
        };
        Ok(PartitionMeta {
            raw_boot: boot,
            raw_bi2: bi2,
            raw_apploader: apploader,
            raw_dol: dol,
            raw_fst,
            raw_ticket: ticket,
            raw_tmd: tmd,
            raw_cert_chain: cert,
            raw_h3_table: h3,
        })
    }

    /// Opens a read stream over one file of the partition's file system.
    pub fn open_file(&self, node: &crate::fst::Node) -> (r: FileStream<'a>)
        requires
            self.wf(),
        ensures
            r.part.wf(),
            r.part.disc == self.disc,
            r.base == node.spec_offset(self.has_hashes),
            r.size == node.length,
            r.fpos == 0,
            self_unchanged_but_cursor(self, &r.part),
    {
        let base = node.offset(self.has_hashes);
        let size = node.length();
        let key = copy_range(self.title_key.as_slice(), 0, 16);
        proof {
            assert(key@ =~= self.title_key@);
        }
        FileStream {
            part: PartitionReader {
                disc: self.disc,
                info: self.info,
                title_key: key,
                encrypted: self.encrypted,
                has_hashes: self.has_hashes,
                validate: self.validate,
                pos: 0,
                warnings: Vec::new(),
                cache: None,
            },
            base,
            size,
            fpos: 0,
        }
    }
}

/// Raw copies of a partition's metadata regions.
pub struct PartitionMeta {
    /// boot.bin: the partition's disc header and boot fields (0x440 bytes).
    pub raw_boot: Vec<u8>,
    /// bi2.bin (0x2000 bytes).
    pub raw_bi2: Vec<u8>,
    /// apploader.img, sized from its header.
    pub raw_apploader: Vec<u8>,
    /// main.dol, sized from its segment extents.
    pub raw_dol: Vec<u8>,
    /// fst.bin, placed and sized by the boot header.
    pub raw_fst: Vec<u8>,
    /// The raw ticket (Wii).
    pub raw_ticket: Option<Vec<u8>>,
    /// The raw TMD (Wii).
    pub raw_tmd: Option<Vec<u8>>,
    /// The raw certificate chain (Wii).
    pub raw_cert_chain: Option<Vec<u8>>,
    /// The raw H3 table (Wii).
    pub raw_h3_table: Option<Vec<u8>>,
}

impl PartitionMeta {
    /// A view of the file system table.
    pub fn fst(&self) -> (r: Result<Fst>)
        ensures
            r is Ok <==> self.raw_fst@.len() >= 12 && crate::fst::spec_node(self.raw_fst@, 0).length
                * 12 < self.raw_fst@.len(),
            r is Ok ==> crate::fst::parses_to(self.raw_fst@, r->Ok_0),
    {
        Fst::new(self.raw_fst.as_slice())
    }
}

/// A read stream over one file inside a partition.
pub struct FileStream<'a> {
    /// A private partition reader positioned by this stream.
    pub part: PartitionReader<'a>,
    /// The file's byte offset inside the partition.
    pub base: u64,
    /// The file's byte size.
    pub size: u64,
    /// The stream cursor within the file.
    pub fpos: u64,
}

/// How many bytes a file-stream read of `n` bytes returns: bounded by the
/// file's remaining bytes and by the partition's remaining user bytes.
pub open spec fn spec_stream_read_len(fs: FileStream, n: int) -> int {
    let file_avail = if fs.fpos <= fs.size {
        fs.size - fs.fpos
    } else {
        0int
    };
    let u = fs.part.spec_user_size();
    let abs = fs.base + fs.fpos;
    let part_avail = if abs <= u {
        u - abs
    } else {
        0int
    };
    let m = if n <= file_avail {
        n
    } else {
        file_avail
    };
    if m <= part_avail {
        m
    } else {
        part_avail
    }
}

impl<'a> FileStream<'a> {
    /// Reads up to `n` bytes at the cursor: exactly the file's bytes, short
    /// only at the file's end (or at the partition's end, for a file that
    /// overruns it).
    pub fn read(&mut self, n: usize) -> (r: Vec<u8>)
        requires
            old(self).part.wf(),
        ensures
            final(self).part.wf(),
            final(self).base == old(self).base,
            final(self).size == old(self).size,
            r@.len() == spec_stream_read_len(*old(self), n as int),
            forall|k: int|
                0 <= k < r@.len() ==> r@[k] == old(self).part.part_byte(
                    old(self).base + old(self).fpos + k,
                ),
            final(self).fpos == old(self).fpos + r@.len(),
    {
        if self.fpos >= self.size {
            return Vec::new();
        }
        let abs = match self.base.checked_add(self.fpos) {
            Some(a) => a,
            None => {
                // The file position lies beyond any partition's user area.
                proof {
                    assert(self.part.spec_user_size() <= 0x2000000 * 2048);
                }
                return Vec::new();
            },
        };
        let take: usize = if self.size - self.fpos < n as u64 {
            (self.size - self.fpos) as usize
        } else {
            n
        };
        self.part.pos = abs;
        let out = self.part.read(take);
        self.fpos = self.fpos + out.len() as u64;
        out
    }

    /// Moves the stream cursor within the file.
    pub fn seek(&mut self, pos: u64) -> (r: u64)
        ensures
            *final(self) == (FileStream { fpos: pos, ..*old(self) }),
            r == pos,
    {
        self.fpos = pos;
        pos
    }
}

/// The plaintext of one stored hash block: the hash section decrypted with a
/// zero IV, then the user data decrypted with the hash section's last 16
/// bytes as IV.
pub open spec fn spec_group_decrypt(key: Seq<u8>, cipher: Seq<u8>) -> Seq<u8> {
    let hashes = cbc_dec(key, zero_iv(), cipher.take(1024));
    hashes + cbc_dec(key, hashes.subrange(0x3D0, 0x3E0), cipher.skip(1024))
}

/// Decrypts one 32 KiB hash block.
pub fn decrypt_group_data(key: &[u8], cipher: &[u8]) -> (r: Vec<u8>)
    requires
        key@.len() == 16,
        cipher@.len() == BLOCK_FULL_SIZE,
    ensures
        r@ == spec_group_decrypt(key@, cipher@),
        r@.len() == BLOCK_FULL_SIZE,
{
    let hash_ct = copy_range(cipher, 0, 1024);
    let ziv = zero_vec(16);
    let hashes = cbc_decrypt(key, ziv.as_slice(), hash_ct.as_slice());
    let iv = copy_range(hashes.as_slice(), 0x3D0, 16);
    let data_ct = copy_range(cipher, 1024, BLOCK_FULL_SIZE - 1024);
    let data = cbc_decrypt(key, iv.as_slice(), data_ct.as_slice());
    let mut out = hashes;
    append_bytes(&mut out, data.as_slice());
    proof {
        assert(hash_ct@ =~= cipher@.take(1024));
        assert(data_ct@ =~= cipher@.skip(1024));
        assert(ziv@ =~= zero_iv());
        assert(iv@ =~= cbc_dec(key@, zero_iv(), cipher@.take(1024)).subrange(0x3D0, 0x3E0));
        assert(out@ =~= spec_group_decrypt(key@, cipher@));
    }
    out
}

/// Re-encrypts one 32 KiB hash block of plaintext: the hash section under a
/// zero IV, the user data under the hash section's last 16 bytes as IV.
///
/// Decrypting the result with the same title key gives the plaintext back:
/// re-encrypting a partition for canonical ISO output and then reading it
/// through the decryptor is the identity on every user byte.
pub fn encrypt_group_data(key: &[u8], plain: &[u8]) -> (r: Vec<u8>)
    requires
        key@.len() == 16,
        plain@.len() == BLOCK_FULL_SIZE,
    ensures
        r@.len() == BLOCK_FULL_SIZE,
        spec_group_decrypt(key@, r@) == plain@,
{
    let hash_pt = copy_range(plain, 0, 1024);
    let ziv = zero_vec(16);
    let hash_ct = crate::crypto::cbc_encrypt(key, ziv.as_slice(), hash_pt.as_slice());
    let iv = copy_range(plain, 0x3D0, 16);
    let data_pt = copy_range(plain, 1024, BLOCK_FULL_SIZE - 1024);
    let data_ct = crate::crypto::cbc_encrypt(key, iv.as_slice(), data_pt.as_slice());
    let mut out = hash_ct;
    append_bytes(&mut out, data_ct.as_slice());
    proof {
        let hct = cbc_enc(key@, zero_iv(), plain@.take(1024));
        assert(ziv@ =~= zero_iv());
        assert(hash_pt@ =~= plain@.take(1024));
        assert(data_pt@ =~= plain@.skip(1024));
        assert(out@.take(1024) =~= hct);
        assert(out@.skip(1024) =~= cbc_enc(key@, iv@, plain@.skip(1024)));
        assert(cbc_dec(key@, zero_iv(), out@.take(1024)) == plain@.take(1024));
        assert(cbc_dec(key@, zero_iv(), out@.take(1024)).subrange(0x3D0, 0x3E0) =~= iv@);
        assert(spec_group_decrypt(key@, out@) =~= plain@);
    }
    out
}

} // verus!
