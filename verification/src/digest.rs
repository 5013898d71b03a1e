//! The SHA-256 digest of a file's contents, by which equal files are recognised.

use sha2::{Digest, Sha256};
use vstd::prelude::*;

verus! {

/// The SHA-256 digest of `data`.
pub uninterp spec fn sha256(data: Seq<u8>) -> Seq<u8>;

/// `sha2::Sha256::digest`: the digest is made of the data alone and has 32 bytes.
#[verifier::external_body]
fn sha256_digest(data: &[u8]) -> (r: Vec<u8>)
    ensures
        r@ == sha256(data@),
        r@.len() == 32,
{
    Sha256::digest(data).to_vec()
}

/// The bytes as lower-case hexadecimal text, two digits each, the high one first.
pub open spec fn hex(bytes: Seq<u8>) -> Seq<char> {
    Seq::new(
        2 * bytes.len(),
        |k: int|
            crate::text::digit_char(
                if k % 2 == 0 {
                    (bytes[k / 2] / 16) as nat
                } else {
                    (bytes[k / 2] % 16) as nat
                },
            ),
    )
}

/// Whether the text is made of lower-case hexadecimal digits.
pub open spec fn is_hex(text: Seq<char>) -> bool {
    forall|i: int|
        0 <= i < text.len() ==> ('0' <= #[trigger] text[i] <= '9' || 'a' <= text[i] <= 'f')
}

/// Hexadecimal text is ASCII.
pub proof fn lemma_hex_is_ascii(text: Seq<char>)
    requires
        is_hex(text),
    ensures
        vstd::utf8::is_ascii_chars(text),
{
    assert forall|i: int| 0 <= i < text.len() implies '\0' <= #[trigger] text[i] <= '\u{7f}' by {}
}

/// What [`hex`] writes is hexadecimal text.
pub proof fn lemma_hex(bytes: Seq<u8>)
    ensures
        is_hex(hex(bytes)),
{
}

/// Writes bytes as lower-case hexadecimal text, two digits each.
pub fn hex_text(bytes: &[u8]) -> (r: String)
    ensures
        r@ == hex(bytes@),
{
    let mut out = String::new();
    let mut i: usize = 0;
    while i < bytes.len()
        invariant
            i <= bytes@.len(),
            out@ == hex(bytes@).take(2 * i),
        decreases bytes@.len() - i,
    {
        let byte: u8 = bytes[i];
        out.push(crate::text::digit(byte / 16));
        out.push(crate::text::digit(byte % 16));
        assert(hex(bytes@).take(2 * (i + 1)) == hex(bytes@).take(2 * i).push(
            hex(bytes@)[2 * i],
        ).push(hex(bytes@)[2 * i + 1]));
        i = i + 1;
    }
    assert(hex(bytes@).take(2 * i) == hex(bytes@));
    out
}

/// The SHA-256 digest of `data`, as 64 lower-case hexadecimal digits.
pub fn hex_sha256(data: &[u8]) -> (r: String)
    ensures
        r@ == hex(sha256(data@)),
        r@.len() == 64,
{
    hex_text(sha256_digest(data).as_slice())
}

} // verus!
