//! The one cryptographic primitive the gateway relies on: HMAC-SHA256,
//! computed by an outside crate and named here so that the signature checks
//! can state exactly what they compare.

use vstd::prelude::*;

use hmac::KeyInit;
use hmac::Mac;

verus! {

/// The HMAC-SHA256 tag of `data` under `key`: a function of its two
/// arguments alone.
pub uninterp spec fn hmac_sha256_of(key: Seq<u8>, data: Seq<u8>) -> Seq<u8>;

/// Relies on `hmac::Hmac<sha2::Sha256>` (`new_from_slice`, which accepts
/// keys of any length, then `update` and `finalize`): the HMAC-SHA256 tag of
/// `data` under `key`; the tag is 32 bytes.
#[verifier::external_body]
pub fn hmac_sha256(key: &[u8], data: &[u8]) -> (r: Vec<u8>)
    ensures
        r@ == hmac_sha256_of(key@, data@),
        r@.len() == 32,
{
    let mut mac = <hmac::Hmac<sha2::Sha256> as KeyInit>::new_from_slice(key)
        .expect("HMAC accepts keys of any length");
    mac.update(data);
    mac.finalize().into_bytes().to_vec()
}

} // verus!
