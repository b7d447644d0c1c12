//! SHA-256 digests, as lowercase hex, of byte strings.

use vstd::prelude::*;

use sha2::{Digest, Sha256};

verus! {

/// The lowercase hex SHA-256 digest of `data`.
pub uninterp spec fn spec_sha256_hex(data: Seq<u8>) -> Seq<char>;

/// A lowercase hexadecimal digit.
pub open spec fn is_lower_hex(c: char) -> bool {
    ('0' <= c && c <= '9') || ('a' <= c && c <= 'f')
}

/// Hashes `data` with `sha2::Sha256` and prints the 32-byte digest with
/// `{:x}`: 64 lowercase hex digits, two per byte.
#[verifier::external_body]
pub(crate) fn sha256_hex_bytes(data: &[u8]) -> (r: String)
    ensures
        r@ == spec_sha256_hex(data@),
        r@.len() == 64,
        forall|i: int| 0 <= i < 64 ==> is_lower_hex(#[trigger] r@[i]),
{
    let mut hasher = Sha256::new();
    hasher.update(data);
    format!("{:x}", hasher.finalize())
}

/// Appends the UTF-8 encoding of `s` to `buf`.
pub fn push_utf8(buf: &mut Vec<u8>, s: &str)
    ensures
        final(buf)@ == old(buf)@ + vstd::utf8::encode_utf8(s@),
{
    let bytes = s.as_bytes();
    let mut i: usize = 0;
    let ghost start = buf@;
    while i < bytes.len()
        invariant
            i <= bytes@.len(),
            bytes@ == vstd::utf8::encode_utf8(s@),
            buf@ == start + bytes@.take(i as int),
        decreases bytes@.len() - i,
    {
        buf.push(bytes[i]);
        i = i + 1;
        proof {
            assert(bytes@.take(i as int) == bytes@.take(i - 1).push(bytes@[i - 1]));
        }
    }
    proof {
        assert(bytes@.take(bytes@.len() as int) == bytes@);
    }
}

/// Hex-encoded SHA-256 of the UTF-8 bytes of `data`, used both for the
/// remote-plugin cache file name and for the pinned-checksum check.
pub fn sha256_hex(data: &str) -> (r: String)
    ensures
        r@ == spec_sha256_hex(vstd::utf8::encode_utf8(data@)),
        r@.len() == 64,
{
    let mut buf: Vec<u8> = Vec::new();
    push_utf8(&mut buf, data);
    assert(buf@ == vstd::utf8::encode_utf8(data@));
    sha256_hex_bytes(buf.as_slice())
}

} // verus!
