//! Random bytes and the HMAC-SHA256 digest used by the digest handshake.

use vstd::prelude::*;

verus! {

/// The HMAC-SHA256 digest of data under key.  The digest is a function of
/// its inputs alone; computing it is the hmac and sha2 crates' work.
pub uninterp spec fn hmac_sha256_of(key: Seq<u8>, data: Seq<u8>) -> Seq<u8>;

/// Relies on rand::rng and rand_core::Rng::fill_bytes to fill a fresh
/// buffer; nothing holds of the bytes but their number.
#[verifier::external_body]
pub fn generate_random_bytes(len: usize) -> (r: Vec<u8>)
    ensures
        r@.len() == len,
{
    let mut bytes = vec![0u8; len];
    rand::Rng::fill_bytes(&mut rand::rng(), &mut bytes);
    bytes
}

/// Relies on hmac's Hmac over sha2's Sha256 for the digest; the result
/// depends on the key and data alone and is 32 bytes long.  HMAC accepts a
/// key of any length, so new_from_slice cannot fail here.
#[verifier::external_body]
pub fn calculate_hmac_sha256(key: &[u8], data: &[u8]) -> (r: [u8; 32])
    ensures
        r@ == hmac_sha256_of(key@, data@),
        r@.len() == 32,
{
    let mut mac = <hmac::Hmac<sha2::Sha256> as hmac::KeyInit>::new_from_slice(key)
        .expect("HMAC can take key of any size");
    hmac::Mac::update(&mut mac, data);
    let result = hmac::Mac::finalize(mac);
    result.into_bytes().into()
}

} // verus!
