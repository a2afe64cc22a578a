//! SHA-256 digests, computed by the `sha2` crate, and their hexadecimal text.

use vstd::prelude::*;
use vstd::string::StringSliceAdditionalSpecFns;

verus! {

/// The SHA-256 digest of a byte sequence, as `sha2::Sha256` computes it.
pub uninterp spec fn sha256_of(bytes: Seq<u8>) -> Seq<u8>;

/// Calls `sha2::Sha256::digest`; the digest is named `sha256_of` and has
/// 32 bytes.
#[verifier::external_body]
pub(crate) fn sha256(bytes: &[u8]) -> (d: Vec<u8>)
    ensures
        d@ == sha256_of(bytes@),
        d@.len() == 32,
{
    <sha2::Sha256 as sha2::Digest>::digest(bytes).to_vec()
}

/// Two lower-case hexadecimal digits of a byte, as `{:02x}` writes it.
pub open spec fn byte_hex(b: u8) -> Seq<char> {
    seq![crate::ids::hex_digit((b / 16) as int), crate::ids::hex_digit((b % 16) as int)]
}

/// The lower-case hexadecimal text of bytes.
pub open spec fn hex_text(bytes: Seq<u8>) -> Seq<char>
    decreases bytes.len(),
{
    if bytes.len() == 0 {
        Seq::empty()
    } else {
        hex_text(bytes.drop_last()) + byte_hex(bytes.last())
    }
}

/// The hexadecimal digit character of `d` (0..16).
pub fn hex_digit_of(d: u8) -> (c: char)
    requires
        d < 16,
    ensures
        c == crate::ids::hex_digit(d as int),
{
    if d < 10 {
        let b: u8 = d + 48;
        b as char
    } else {
        let b: u8 = d + 87;
        b as char
    }
}

/// The lower-case hexadecimal text of the first `n` bytes.
pub fn hex_prefix(bytes: &Vec<u8>, n: usize) -> (r: String)
    requires
        n <= bytes@.len(),
    ensures
        r@ == hex_text(bytes@.subrange(0, n as int)),
{
    let mut v: Vec<char> = Vec::new();
    let mut i: usize = 0;
    assert(bytes@.subrange(0, 0) =~= Seq::<u8>::empty());
    while i < n
        invariant
            i <= n <= bytes@.len(),
            v@ == hex_text(bytes@.subrange(0, i as int)),
        decreases n - i,
    {
        let b = bytes[i];
        v.push(hex_digit_of(b / 16));
        v.push(hex_digit_of(b % 16));
        proof {
            assert(bytes@.subrange(0, i + 1).drop_last() =~= bytes@.subrange(0, i as int));
            assert(v@ =~= hex_text(bytes@.subrange(0, i as int)) + byte_hex(b));
        }
        i = i + 1;
    }
    crate::text::string_of(&v)
}

/// Two hexadecimal digits per byte.
pub proof fn lemma_hex_text_len(bytes: Seq<u8>)
    ensures
        hex_text(bytes).len() == 2 * bytes.len(),
    decreases bytes.len(),
{
    if bytes.len() > 0 {
        lemma_hex_text_len(bytes.drop_last());
    }
}

/// The SHA-256 digest of a text's UTF-8 bytes, in lower-case hexadecimal:
/// 64 digits.
pub fn sha256_hex(text: &str) -> (r: String)
    ensures
        r@ == hex_text(sha256_of(text.spec_bytes())),
        r@.len() == 64,
{
    let d = sha256(text.as_bytes());
    let r = hex_prefix(&d, d.len());
    assert(d@.subrange(0, d@.len() as int) =~= d@);
    proof {
        lemma_hex_text_len(d@);
    }
    r
}

} // verus!
