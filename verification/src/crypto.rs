//! Cryptographic primitives behind trusted contracts: the AES-128 block
//! cipher and SHA-1, both pulled from vetted primitive crates, plus the
//! verified CBC chaining built on the block cipher.

use aes::cipher::{BlockCipherDecrypt, BlockCipherEncrypt, KeyInit};
use sha1::Digest;
use vstd::prelude::*;

verus! {

/// The SHA-1 digest of `data`.
pub uninterp spec fn sha1_of(data: Seq<u8>) -> Seq<u8>;

/// Relies on the sha1 crate's `Sha1::digest`: the 20-byte SHA-1 digest is a
/// function of the input bytes alone.
#[verifier::external_body]
pub fn sha1_digest(data: &[u8]) -> (r: Vec<u8>)
    ensures
        r@ == sha1_of(data@),
        r@.len() == 20,
{
    sha1::Sha1::digest(data).to_vec()
}

/// The AES-128 encryption of one 16-byte block under a 16-byte key.
pub uninterp spec fn aes_enc(key: Seq<u8>, block: Seq<u8>) -> Seq<u8>;

/// The AES-128 decryption of one 16-byte block under a 16-byte key.
pub uninterp spec fn aes_dec(key: Seq<u8>, block: Seq<u8>) -> Seq<u8>;

/// Relies on the aes crate's `Aes128` with `BlockCipherEncrypt`: the
/// ciphertext block is a function of key and plaintext alone, is 16 bytes,
/// and decrypting it with the same key gives the plaintext back (the block
/// cipher is a permutation and `decrypt_block` inverts `encrypt_block`).
#[verifier::external_body]
pub fn aes128_encrypt_block(key: &[u8], block: &[u8]) -> (r: Vec<u8>)
    requires
        key@.len() == 16,
        block@.len() == 16,
    ensures
        r@ == aes_enc(key@, block@),
        r@.len() == 16,
        aes_dec(key@, r@) == block@,
{
    let cipher = match aes::Aes128::new_from_slice(key) {
        Ok(c) => c,
        Err(_) => {
            return Vec::new();
        },
    };
    let mut b = aes::Block::default();
    b.copy_from_slice(block);
    cipher.encrypt_block(&mut b);
    b.to_vec()
}

/// Relies on the aes crate's `Aes128` with `BlockCipherDecrypt`: the
/// plaintext block is a function of key and ciphertext alone, is 16 bytes,
/// and encrypting it again with the same key gives the ciphertext back.
#[verifier::external_body]
pub fn aes128_decrypt_block(key: &[u8], block: &[u8]) -> (r: Vec<u8>)
    requires
        key@.len() == 16,
        block@.len() == 16,
    ensures
        r@ == aes_dec(key@, block@),
        r@.len() == 16,
        aes_enc(key@, r@) == block@,
{
    let cipher = match aes::Aes128::new_from_slice(key) {
        Ok(c) => c,
        Err(_) => {
            return Vec::new();
        },
    };
    let mut b = aes::Block::default();
    b.copy_from_slice(block);
    cipher.decrypt_block(&mut b);
    b.to_vec()
}

/// The byte-wise XOR of two 16-byte strings.
pub open spec fn xor16(a: Seq<u8>, b: Seq<u8>) -> Seq<u8> {
    Seq::new(16, |i: int| a[i] ^ b[i])
}

/// AES-128-CBC decryption of whole blocks: each plaintext block is the
/// decrypted ciphertext block XORed with the previous ciphertext block (the
/// IV for the first).
pub open spec fn cbc_dec(key: Seq<u8>, iv: Seq<u8>, ct: Seq<u8>) -> Seq<u8>
    decreases ct.len(),
{
    if ct.len() < 16 {
        Seq::<u8>::empty()
    } else {
        xor16(aes_dec(key, ct.take(16)), iv) + cbc_dec(key, ct.take(16), ct.skip(16))
    }
}

/// AES-128-CBC encryption of whole blocks: each ciphertext block encrypts
/// the plaintext block XORed with the previous ciphertext block (the IV for
/// the first).
pub open spec fn cbc_enc(key: Seq<u8>, iv: Seq<u8>, pt: Seq<u8>) -> Seq<u8>
    decreases pt.len(),
{
    if pt.len() < 16 {
        Seq::<u8>::empty()
    } else {
        let c0 = aes_enc(key, xor16(pt.take(16), iv));
        c0 + cbc_enc(key, c0, pt.skip(16))
    }
}

/// XORs two 16-byte buffers.
fn xor16_exec(a: &[u8], b: &[u8]) -> (r: Vec<u8>)
    requires
        a@.len() == 16,
        b@.len() == 16,
    ensures
        r@ == xor16(a@, b@),
{
    let mut out: Vec<u8> = Vec::new();
    let mut i: usize = 0;
    while i < 16
        invariant
            i <= 16,
            a@.len() == 16,
            b@.len() == 16,
            out@.len() == i,
            forall|j: int| 0 <= j < i ==> out@[j] == (a@[j] ^ b@[j]),
        decreases 16 - i,
    {
        out.push(a[i] ^ b[i]);
        i = i + 1;
    }
    proof {
        assert(out@ =~= xor16(a@, b@));
    }
    out
}

/// Decrypts `data` (a whole number of 16-byte blocks) with AES-128-CBC.
pub fn cbc_decrypt(key: &[u8], iv: &[u8], data: &[u8]) -> (r: Vec<u8>)
    requires
        key@.len() == 16,
        iv@.len() == 16,
        data@.len() % 16 == 0,
    ensures
        r@ == cbc_dec(key@, iv@, data@),
        r@.len() == data@.len(),
{
    let n = data.len();
    let mut out: Vec<u8> = Vec::new();
    let mut prev: Vec<u8> = crate::util::copy_range(iv, 0, 16);
    let mut done: usize = 0;
    proof {
        assert(prev@ =~= iv@);
        assert(data@.skip(0) =~= data@);
        assert(out@ + cbc_dec(key@, iv@, data@) =~= cbc_dec(key@, iv@, data@));
    }
    while done < n
        invariant
            done <= n == data@.len(),
            done % 16 == 0,
            n % 16 == 0,
            key@.len() == 16,
            prev@.len() == 16,
            out@.len() == done,
            prev@ == (if done == 0 {
                iv@
            } else {
                data@.subrange(done - 16, done as int)
            }),
            cbc_dec(key@, iv@, data@) == out@ + cbc_dec(key@, prev@, data@.skip(done as int)),
        decreases n - done,
    {
        let ct = crate::util::copy_range(data, done, 16);
        let pt = aes128_decrypt_block(key, ct.as_slice());
        let px = xor16_exec(pt.as_slice(), prev.as_slice());
        proof {
            let rest = data@.skip(done as int);
            assert(rest.take(16) =~= ct@);
            assert(rest.skip(16) =~= data@.skip(done as int + 16));
            assert(cbc_dec(key@, prev@, rest) == xor16(aes_dec(key@, ct@), prev@) + cbc_dec(
                key@,
                ct@,
                data@.skip(done as int + 16),
            ));
            assert(px@ =~= xor16(aes_dec(key@, ct@), prev@)) by {
                assert(pt@ == aes_dec(key@, ct@));
                assert forall|j: int| 0 <= j < 16 implies px@[j] == xor16(
                    aes_dec(key@, ct@),
                    prev@,
                )[j] by {}
            }
        }
        crate::util::append_bytes(&mut out, px.as_slice());
        prev = ct;
        done = done + 16;
    }
    proof {
        assert(data@.skip(n as int) =~= Seq::<u8>::empty());
        assert(out@ =~= cbc_dec(key@, iv@, data@));
    }
    out
}

/// The last ciphertext block of `ct`, or the IV when `ct` is empty.
pub open spec fn last_block(iv: Seq<u8>, ct: Seq<u8>) -> Seq<u8> {
    if ct.len() == 0 {
        iv
    } else {
        ct.subrange(ct.len() - 16, ct.len() as int)
    }
}

/// Appending one ciphertext block extends a CBC decryption by the decrypted
/// block XORed with the previous ciphertext block.
proof fn lemma_cbc_dec_snoc(key: Seq<u8>, iv: Seq<u8>, ct: Seq<u8>, blk: Seq<u8>)
    requires
        ct.len() % 16 == 0,
        blk.len() == 16,
    ensures
        cbc_dec(key, iv, ct + blk) == cbc_dec(key, iv, ct) + xor16(aes_dec(key, blk), last_block(iv, ct)),
    decreases ct.len(),
{
    if ct.len() == 0 {
        assert((ct + blk).take(16) =~= blk);
        assert((ct + blk).skip(16) =~= Seq::<u8>::empty());
        assert(cbc_dec(key, iv, ct) =~= Seq::<u8>::empty());
        assert(cbc_dec(key, blk, Seq::<u8>::empty()) =~= Seq::<u8>::empty());
        assert(cbc_dec(key, iv, ct + blk) == xor16(aes_dec(key, (ct + blk).take(16)), iv)
            + cbc_dec(key, (ct + blk).take(16), (ct + blk).skip(16)));
        assert(cbc_dec(key, iv, ct + blk) =~= xor16(aes_dec(key, blk), iv));
        assert(cbc_dec(key, iv, ct) + xor16(aes_dec(key, blk), iv) =~= xor16(
            aes_dec(key, blk),
            iv,
        ));
    } else {
        let head = ct.take(16);
        let tail = ct.skip(16);
        lemma_cbc_dec_snoc(key, head, tail, blk);
        assert((ct + blk).take(16) =~= head);
        assert((ct + blk).skip(16) =~= tail + blk);
        assert(last_block(head, tail) =~= last_block(iv, ct));
        assert(cbc_dec(key, iv, ct + blk) == xor16(aes_dec(key, head), iv) + cbc_dec(
            key,
            head,
            tail + blk,
        ));
        assert(xor16(aes_dec(key, head), iv) + (cbc_dec(key, head, tail) + xor16(
            aes_dec(key, blk),
            last_block(head, tail),
        )) =~= (xor16(aes_dec(key, head), iv) + cbc_dec(key, head, tail)) + xor16(
            aes_dec(key, blk),
            last_block(iv, ct),
        ));
    }
}

/// XOR by the same byte twice gives the original back.
proof fn lemma_xor_cancel(a: u8, b: u8)
    ensures
        ((a ^ b) ^ b) == a,
{
    assert(((a ^ b) ^ b) == a) by (bit_vector);
}

/// Encrypts `data` (a whole number of 16-byte blocks) with AES-128-CBC.
///
/// Decrypting the result with the same key and IV gives `data` back: this is
/// how a rebuilt, re-encrypted Wii group round-trips to the plaintext it was
/// built from.
pub fn cbc_encrypt(key: &[u8], iv: &[u8], data: &[u8]) -> (r: Vec<u8>)
    requires
        key@.len() == 16,
        iv@.len() == 16,
        data@.len() % 16 == 0,
    ensures
        r@ == cbc_enc(key@, iv@, data@),
        r@.len() == data@.len(),
        cbc_dec(key@, iv@, r@) == data@,
{
    let n = data.len();
    let mut out: Vec<u8> = Vec::new();
    let mut prev: Vec<u8> = crate::util::copy_range(iv, 0, 16);
    let mut done: usize = 0;
    proof {
        assert(prev@ =~= iv@);
        assert(data@.skip(0) =~= data@);
        assert(out@ + cbc_enc(key@, iv@, data@) =~= cbc_enc(key@, iv@, data@));
        assert(data@.take(0) =~= Seq::<u8>::empty());
    }
    while done < n
        invariant
            done <= n == data@.len(),
            done % 16 == 0,
            n % 16 == 0,
            key@.len() == 16,
            iv@.len() == 16,
            prev@.len() == 16,
            out@.len() == done,
            prev@ == last_block(iv@, out@),
            cbc_enc(key@, iv@, data@) == out@ + cbc_enc(key@, prev@, data@.skip(done as int)),
            cbc_dec(key@, iv@, out@) == data@.take(done as int),
        decreases n - done,
    {
        let pt = crate::util::copy_range(data, done, 16);
        let px = xor16_exec(pt.as_slice(), prev.as_slice());
        let ct = aes128_encrypt_block(key, px.as_slice());
        proof {
            let rest = data@.skip(done as int);
            assert(rest.take(16) =~= pt@);
            assert(rest.skip(16) =~= data@.skip(done as int + 16));
            assert(xor16(rest.take(16), prev@) =~= px@);
            assert(cbc_enc(key@, prev@, rest) == ct@ + cbc_enc(
                key@,
                ct@,
                data@.skip(done as int + 16),
            ));
            lemma_cbc_dec_snoc(key@, iv@, out@, ct@);
            assert(xor16(aes_dec(key@, ct@), prev@) =~= pt@) by {
                assert(aes_dec(key@, ct@) == px@);
                assert forall|j: int| 0 <= j < 16 implies xor16(px@, prev@)[j] == pt@[j] by {
                    lemma_xor_cancel(pt@[j], prev@[j]);
                }
            }
            assert(cbc_dec(key@, iv@, out@ + ct@) =~= data@.take(done as int + 16));
            assert((out@ + ct@) + cbc_enc(key@, ct@, data@.skip(done as int + 16)) =~= out@ + (ct@
                + cbc_enc(key@, ct@, data@.skip(done as int + 16))));
        }
        crate::util::append_bytes(&mut out, ct.as_slice());
        proof {
            assert(last_block(iv@, out@) =~= ct@);
        }
        prev = ct;
        done = done + 16;
    }
    proof {
        assert(data@.skip(n as int) =~= Seq::<u8>::empty());
        assert(out@ =~= cbc_enc(key@, iv@, data@));
        assert(data@.take(n as int) =~= data@);
    }
    out
}

} // verus!
