pub mod b64;

use crate::urlsafe::b64::{encode_text, encoded_len, is_urlsafe_char, urlsafe_b64encode};
use rand::RngCore;
use vstd::prelude::*;

verus! {

/// Relies on rand's `thread_rng` (ChaCha, seeded from the operating system)
/// and `RngCore::fill_bytes`: the buffer is overwritten in place and keeps its
/// length. Nothing is known of the bytes.
#[verifier::external_body]
pub(crate) fn fill_random(buf: &mut Vec<u8>)
    ensures
        final(buf)@.len() == old(buf)@.len(),
{
    rand::thread_rng().fill_bytes(buf.as_mut_slice())
}

/// A URL-safe token: `length` random bytes (the entropy, not the length of
/// the text) in URL-safe base64 without padding.
pub fn urlsafe_token(length: usize) -> (r: String)
    ensures
        exists|b: Seq<u8>| b.len() == length && r@ == encode_text(b),
        r@.len() == encoded_len(length as nat),
        forall|i: int| 0 <= i < r@.len() ==> is_urlsafe_char(#[trigger] r@[i]),
{
    let mut buf: Vec<u8> = vec![0u8; length];
    fill_random(&mut buf);
    urlsafe_b64encode(buf.as_slice())
}

} // verus!
