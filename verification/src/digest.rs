//! SHA-256 and hex decoding, as used for agent binding and holder commitments.
use vstd::prelude::*;
use crate::text::hex8;

verus! {

/// SHA-256 digest of a byte string (32 bytes).
pub uninterp spec fn sha256_digest(data: Seq<u8>) -> Seq<u8>;

/// Calls `<sha2::Sha256 as sha2::Digest>::digest` on `data`. The contract only
/// names the result: it is the SHA-256 digest of exactly these bytes.
#[verifier::external_body]
pub(crate) fn sha256(data: &[u8]) -> (d: [u8; 32])
    ensures
        d@ == sha256_digest(data@),
{
    let out = <sha2::Sha256 as sha2::Digest>::digest(data);
    out.into()
}

/// `c` is an ASCII hexadecimal digit (either case).
pub open spec fn is_hex_byte(c: u8) -> bool {
    (48 <= c <= 57) || (65 <= c <= 70) || (97 <= c <= 102)
}

/// The value of hexadecimal digit `c`.
pub open spec fn hex_val(c: u8) -> int {
    if 48 <= c <= 57 {
        c - 48
    } else if 65 <= c <= 70 {
        c - 55
    } else {
        c - 87
    }
}

/// Calls `hex::decode` on `s` and keeps the `Ok` value. As `hex` 0.4 documents
/// and implements it: the input is accepted iff it has even length and every
/// byte is a hex digit (either case), and then byte `i` of the output is
/// `16 * digit(2i) + digit(2i + 1)`.
#[verifier::external_body]
pub(crate) fn hex_decode(s: &[u8]) -> (r: Option<Vec<u8>>)
    ensures
        r is Some <==> (s@.len() % 2 == 0 && forall|i: int| 0 <= i < s@.len() ==> is_hex_byte(#[trigger] s@[i])),
        r matches Some(v) ==> {
            &&& v@.len() * 2 == s@.len()
            &&& forall|i: int| 0 <= i < v@.len() ==> #[trigger] v@[i] == 16 * hex_val(s@[2 * i]) + hex_val(s@[2 * i + 1])
        },
{
    hex::decode(s).ok()
}

/// Lower-case hex of a byte string, two digits per byte.
pub open spec fn hex_lower(bytes: Seq<u8>) -> Seq<char>
    decreases bytes.len(),
{
    if bytes.len() == 0 {
        Seq::empty()
    } else {
        hex_lower(bytes.drop_last()) + hex8(bytes.last() as u32).subrange(8, 10)
    }
}

/// Calls `hex::encode` on `bytes`: as `hex` 0.4 documents it, each byte
/// becomes two lower-case hex digits, most significant nibble first.
#[verifier::external_body]
pub(crate) fn hex_encode(bytes: &[u8]) -> (s: String)
    ensures
        s@ == hex_lower(bytes@),
{
    hex::encode(bytes)
}

} // verus!
