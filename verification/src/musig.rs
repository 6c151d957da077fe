//! Stored material of a two-party Schnorr multi-signature.

use vstd::prelude::*;

use crate::bytes::slice_to_array;
use crate::store_type::zeros;

verus! {

/// A signer's secret key and nonces, 32 bytes each.
#[derive(Clone, Copy)]
pub struct PreMusig2 {
    pub secret: [u8; 32],
    pub nonces: [u8; 32],
}

impl Default for PreMusig2 {
    fn default() -> (r: Self)
        ensures
            r.secret@ == zeros(32),
            r.nonces@ == zeros(32),
    {
        let r = Self { secret: [0;32], nonces: [0;32] };
        assert(r.secret@ =~= zeros(32));
        assert(r.nonces@ =~= zeros(32));
        r
    }
}

/// Stores a secret key and nonces given as byte vectors of length 32.
pub fn convert_to_pre_musig2(secret: Vec<u8>, nonces: Vec<u8>) -> (r: PreMusig2)
    requires
        secret@.len() == 32,
        nonces@.len() == 32,
    ensures
        r.secret@ == secret@,
        r.nonces@ == nonces@,
{
    let secret: [u8; 32] = slice_to_array(secret.as_slice());
    let nonces: [u8; 32] = slice_to_array(nonces.as_slice());
    PreMusig2 { secret, nonces }
}

} // verus!
