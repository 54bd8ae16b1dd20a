//! Text helpers: ASCII-case-insensitive comparison, decimal formatting,
//! message concatenation, and the Shift-JIS decoder used for disc names.

use vstd::prelude::*;

verus! {

/// Relies on `alloc::string::String::push_str`: appends the string slice to
/// the end of this `String`.
pub assume_specification[ String::push_str ](s: &mut String, other: &str)
    ensures
        final(s)@ == old(s)@ + other@,
;

/// Relies on `alloc::string::String::from_utf8`: bytes below 0x80 are ASCII
/// and decode one-to-one to the characters with the same code points.
#[verifier::external_body]
pub fn ascii_string(bytes: &[u8]) -> (r: String)
    requires
        forall|i: int| 0 <= i < bytes@.len() ==> bytes@[i] < 0x80,
    ensures
        r@.len() == bytes@.len(),
        forall|i: int| 0 <= i < r@.len() ==> r@[i] as u32 == bytes@[i] as u32,
{
    match String::from_utf8(bytes.to_vec()) {
        Ok(s) => s,
        Err(_) => String::new(),
    }
}

/// The characters decoded from `bytes` by the Shift-JIS decoder.
pub uninterp spec fn sjis_chars(bytes: Seq<u8>) -> Seq<char>;

/// Whether the Shift-JIS decoder reports a malformed sequence in `bytes`.
pub uninterp spec fn sjis_error(bytes: Seq<u8>) -> bool;

/// Relies on encoding_rs's `SHIFT_JIS.decode`: the decoded text and the
/// malformed-sequence flag are functions of the input bytes alone; an empty
/// input decodes to nothing; and, per the WHATWG encoding standard that the
/// crate implements, U+0000 is only ever decoded from a zero byte. Note that
/// `decode` sniffs byte-order marks, so an input starting with a UTF-8 or
/// UTF-16 BOM is decoded as that encoding instead; that path is still a pure
/// function of the bytes, and the zero-byte claim holds there too.
#[verifier::external_body]
pub fn decode_shift_jis(bytes: &[u8]) -> (r: (String, bool))
    ensures
        r.0@ == sjis_chars(bytes@),
        r.1 == sjis_error(bytes@),
        bytes@.len() == 0 ==> r.0@.len() == 0,
        (forall|i: int| 0 <= i < bytes@.len() ==> bytes@[i] != 0) ==> (forall|j: int|
            0 <= j < r.0@.len() ==> r.0@[j] as u32 != 0),
{
    let (decoded, _, errors) = encoding_rs::SHIFT_JIS.decode(bytes);
    (decoded.into_owned(), errors)
}

/// The code point of `c` with an ASCII capital letter folded to lower case.
pub open spec fn fold_char(c: char) -> int {
    if 65 <= c as u32 <= 90 {
        c as u32 + 32
    } else {
        c as u32 as int
    }
}

/// The two texts are equal once ASCII capitals are folded to lower case.
pub open spec fn fold_eq_seq(a: Seq<char>, b: Seq<char>) -> bool {
    a.len() == b.len() && forall|i: int| 0 <= i < a.len() ==> fold_char(a[i]) == fold_char(b[i])
}

/// Folds an ASCII capital letter to lower case, at the code-point level.
pub fn fold_u32(c: char) -> (r: u32)
    ensures
        r as int == fold_char(c),
{
    let v = c as u32;
    if 65 <= v && v <= 90 {
        v + 32
    } else {
        v
    }
}

/// Compares `a` against the character range `lo..hi` of `b`, folding ASCII
/// case on both sides.
pub fn fold_eq_range(a: &str, b: &str, lo: usize, hi: usize) -> (r: bool)
    requires
        lo <= hi <= b@.len(),
    ensures
        r == fold_eq_seq(b@.subrange(lo as int, hi as int), a@),
{
    let alen = a.unicode_len();
    if alen != hi - lo {
        return false;
    }
    let mut k: usize = 0;
    while k < alen
        invariant
            k <= alen,
            alen == a@.len(),
            alen == hi - lo,
            lo <= hi <= b@.len(),
            forall|j: int| 0 <= j < k ==> fold_char(b@[lo + j]) == fold_char(a@[j]),
        decreases alen - k,
    {
        if fold_u32(b.get_char(lo + k)) != fold_u32(a.get_char(k)) {
            proof {
                assert(b@.subrange(lo as int, hi as int)[k as int] == b@[lo + k]);
            }
            return false;
        }
        k = k + 1;
    }
    proof {
        assert forall|j: int| 0 <= j < alen implies fold_char(
            b@.subrange(lo as int, hi as int)[j],
        ) == fold_char(a@[j]) by {
            assert(b@.subrange(lo as int, hi as int)[j] == b@[lo + j]);
        }
    }
    true
}

/// Joins three string slices into one `String`.
pub fn concat3(a: &str, b: &str, c: &str) -> (r: String)
    ensures
        r@ == a@ + b@ + c@,
{
    let mut s = a.to_owned();
    s.push_str(b);
    s.push_str(c);
    proof {
        assert(s@ =~= a@ + b@ + c@);
    }
    s
}

/// The decimal digits of `n`, most significant first, as ASCII bytes.
pub open spec fn spec_dec(n: nat) -> Seq<u8>
    decreases n,
{
    if n < 10 {
        seq![(48 + n) as u8]
    } else {
        spec_dec(n / 10).push((48 + n % 10) as u8)
    }
}

/// Every decimal digit byte is an ASCII digit.
pub proof fn lemma_dec_ascii(n: nat)
    ensures
        forall|i: int| 0 <= i < spec_dec(n).len() ==> 48 <= #[trigger] spec_dec(n)[i] <= 57,
    decreases n,
{
    if n >= 10 {
        lemma_dec_ascii(n / 10);
        assert forall|i: int| 0 <= i < spec_dec(n).len() implies 48 <= #[trigger] spec_dec(n)[i]
            <= 57 by {
            if i < spec_dec(n / 10).len() {
                assert(spec_dec(n)[i] == spec_dec(n / 10)[i]);
            } else {
                assert(spec_dec(n)[i] == (48 + n % 10) as u8);
            }
        }
    } else {
        assert(spec_dec(n)[0] == (48 + n) as u8);
    }
}

/// Appends the decimal digits of `n` to `out`.
fn dec_bytes(n: u64, out: &mut Vec<u8>)
    ensures
        final(out)@ == old(out)@ + spec_dec(n as nat),
    decreases n,
{
    if n >= 10 {
        dec_bytes(n / 10, out);
    }
    out.push(48 + (n % 10) as u8);
    proof {
        if n >= 10 {
            assert(out@ =~= old(out)@ + spec_dec(n as nat));
        } else {
            assert(out@ =~= old(out)@ + spec_dec(n as nat));
        }
    }
}

/// The decimal representation of `n`.
pub fn u64_string(n: u64) -> (r: String)
    ensures
        r@.len() == spec_dec(n as nat).len(),
        forall|i: int| 0 <= i < r@.len() ==> r@[i] as u32 == spec_dec(n as nat)[i] as u32,
{
    let mut digits: Vec<u8> = Vec::new();
    dec_bytes(n, &mut digits);
    proof {
        lemma_dec_ascii(n as nat);
        assert(digits@ =~= spec_dec(n as nat));
    }
    ascii_string(digits.as_slice())
}

/// A message of the shape `before<n>after`, with `n` in decimal.
pub fn msg_with_number(before: &str, n: u64, after: &str) -> (r: String)
    ensures
        r@.len() >= before@.len() + after@.len(),
{
    let num = u64_string(n);
    let mut s = before.to_owned();
    s.push_str(num.as_str());
    s.push_str(after);
    s
}

} // verus!
