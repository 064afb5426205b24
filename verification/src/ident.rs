//! Job-id generation: a fresh random UUID, encoded as unpadded URL-safe
//! base64, which gives a compact 22-character token that is never reused in
//! practice.
use vstd::prelude::*;

use base64::Engine;

verus! {

/// What the URL-safe unpadded base64 encoding of a byte string is; named
/// here rather than spelled out, since the encoding is a fixed function of
/// the bytes alone.
pub uninterp spec fn b64url_of(bytes: Seq<u8>) -> Seq<char>;

/// A character of the URL-safe base64 alphabet: letters, digits, `-` and
/// `_`; in particular never `=`, since no padding is emitted.
pub open spec fn is_b64url_char(c: char) -> bool {
    ||| 'A' as u32 <= c as u32 && c as u32 <= 'Z' as u32
    ||| 'a' as u32 <= c as u32 && c as u32 <= 'z' as u32
    ||| '0' as u32 <= c as u32 && c as u32 <= '9' as u32
    ||| c == '-'
    ||| c == '_'
}

/// Relies on `uuid::Uuid::new_v4`: a freshly generated random UUID, whose
/// `as_bytes` form is exactly 16 bytes.  The value is random, so nothing
/// more is promised.  (If the operating system's random source itself
/// fails, uuid's generator panics; that is environmental, of the same kind
/// as allocation failure, and no input condition can exclude it.)
#[verifier::external_body]
fn random_uuid_bytes() -> (r: Vec<u8>)
    ensures
        r@.len() == 16,
{
    uuid::Uuid::new_v4().as_bytes().to_vec()
}

/// Relies on `base64::engine::general_purpose::URL_SAFE_NO_PAD.encode`: a
/// deterministic encoding of the bytes whose unpadded length is
/// `(4n + 2) / 3` as the crate's `encoded_len` computes it, drawn entirely
/// from the `URL_SAFE` alphabet `A-Z a-z 0-9 - _` with no `=` padding.
/// `encode` panics only when that length overflows `usize`, which the bound
/// on the input rules out.
#[verifier::external_body]
fn base64_url_encode(bytes: &Vec<u8>) -> (r: String)
    requires
        bytes@.len() <= 0x1000_0000,
    ensures
        r@ == b64url_of(bytes@),
        r@.len() == (bytes@.len() * 4 + 2) / 3,
        forall|i: int| 0 <= i < r@.len() ==> is_b64url_char(#[trigger] r@[i]),
{
    base64::engine::general_purpose::URL_SAFE_NO_PAD.encode(bytes.as_slice())
}

/// A fresh 22-character job id: the URL-safe base64 form of a random UUID,
/// made of letters, digits, `-` and `_` only.
pub fn generate_uuid() -> (r: String)
    ensures
        r@.len() == 22,
        forall|i: int| 0 <= i < r@.len() ==> is_b64url_char(#[trigger] r@[i]),
{
    let bytes = random_uuid_bytes();
    base64_url_encode(&bytes)
}

} // verus!
