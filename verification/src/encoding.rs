//! Text encodings of binary key material: base64 for environment variables,
//! base65536 for hiding a sealed key inside a Twitter list description.

use vstd::prelude::*;

verus! {

/// What base64 decoding yields for a string: the bytes, or nothing when the
/// string is not valid base64.
pub uninterp spec fn b64_decode_of(s: Seq<char>) -> Option<Seq<u8>>;

/// What base65536 decoding yields for a string (with or without ignoring
/// garbage characters): the bytes, or nothing on failure.
pub uninterp spec fn b65536_decode_of(s: Seq<char>, ignore_garbage: bool) -> Option<Seq<u8>>;

/// The base65536 encoding of a byte string.
pub uninterp spec fn b65536_encode_of(b: Seq<u8>) -> Seq<char>;

/// base65536's decoding error, carried through opaquely and mapped to this
/// crate's own error.
#[verifier::external_type_specification]
#[verifier::external_body]
pub struct ExB65536Error(base65536::Error);

/// Relies on base64::decode (standard alphabet): a pure function of the
/// input string.
#[verifier::external_body]
pub fn base64_decode(s: &String) -> (r: Option<Vec<u8>>)
    ensures
        match r {
            Some(b) => b64_decode_of(s@) == Some(b@),
            None => b64_decode_of(s@) is None,
        },
{
    base64::decode(s.as_str()).ok()
}

/// Relies on base65536::decode: a pure function of the input string and the
/// garbage flag; its error says where the input offended, which this crate
/// does not consume.
#[verifier::external_body]
pub fn b65536_decode(s: &String, ignore_garbage: bool) -> (r: Result<Vec<u8>, base65536::Error>)
    ensures
        match r {
            Ok(b) => b65536_decode_of(s@, ignore_garbage) == Some(b@),
            Err(_) => b65536_decode_of(s@, ignore_garbage) is None,
        },
{
    base65536::decode(s.as_str(), ignore_garbage)
}

/// Relies on base65536::encode without line wrapping: one output character
/// per two input bytes; every output code point lies in the padding block
/// (U+1500..U+1600) or in the data blocks at U+3400 and above; and decode
/// inverts it, whether or not garbage would be ignored.
#[verifier::external_body]
pub fn b65536_encode(b: &Vec<u8>) -> (r: String)
    ensures
        r@ == b65536_encode_of(b@),
        r@.len() == (b@.len() + 1) / 2,
        forall|i: int| 0 <= i < r@.len()
            ==> (0x1500 <= #[trigger] (r@[i] as u32) < 0x1600) || 0x3400 <= r@[i] as u32,
        b65536_decode_of(r@, true) == Some(b@),
        b65536_decode_of(r@, false) == Some(b@),
{
    base65536::encode(b, None)
}

} // verus!
