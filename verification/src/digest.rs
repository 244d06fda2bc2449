//! SHA-256 and lower-case hexadecimal text.

use vstd::prelude::*;
use sha2::Digest;

verus! {

/// The SHA-256 digest of a message.
pub uninterp spec fn sha256_digest(data: Seq<u8>) -> Seq<u8>;

/// The ASCII character for a value below sixteen: `0`-`9`, then `a`-`f`.
pub open spec fn hex_digit(nibble: int) -> u8 {
    if nibble < 10 {
        (48 + nibble) as u8
    } else {
        (87 + nibble) as u8
    }
}

/// Two hexadecimal digits for each byte, the high half first.
pub open spec fn lower_hex(data: Seq<u8>) -> Seq<u8> {
    Seq::new(
        2 * data.len(),
        |i: int| if i % 2 == 0 {
            hex_digit(data[i / 2] as int / 16)
        } else {
            hex_digit(data[i / 2] as int % 16)
        },
    )
}

/// `Sha256::digest` of the crate `sha2`: the digest of `data`, which is a
/// function of the message alone and always 32 bytes long. Trusted.
#[verifier::external_body]
fn sha256(data: &[u8]) -> (out: Vec<u8>)
    ensures
        out@ == sha256_digest(data@),
        out@.len() == 32,
{
    sha2::Sha256::digest(data).to_vec()
}

/// `base16ct::lower::encode_string`: each byte becomes two lower-case
/// hexadecimal digits. It fails on an input of more than half the address
/// space, which the precondition leaves out. Trusted.
#[verifier::external_body]
fn encode_lower_hex(data: &[u8]) -> (out: Vec<u8>)
    requires
        data@.len() <= usize::MAX / 2,
    ensures
        out@ == lower_hex(data@),
{
    base16ct::lower::encode_string(data).into_bytes()
}

/// The hexadecimal SHA-256 digest of `text`.
pub fn hash(text: &[u8]) -> (out: Vec<u8>)
    ensures
        out@ == lower_hex(sha256_digest(text@)),
{
    let digest = sha256(text);
    encode_lower_hex(digest.as_slice())
}

/// Hexadecimal text holds digits and the letters `a` to `f` only.
pub proof fn lemma_hex_alphabet(data: Seq<u8>, i: int)
    requires
        0 <= i < lower_hex(data).len(),
    ensures
        48 <= lower_hex(data)[i] <= 57 || 97 <= lower_hex(data)[i] <= 102,
{
}

} // verus!
