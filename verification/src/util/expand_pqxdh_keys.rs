use vstd::prelude::*;
use vstd::string::StringSliceAdditionalSpecFns;
use crate::util::constants::SHARED_SECRET_SIZE;
use crate::util::helper_func::{extract_chunk, zero_bytes, zeros_32};
use crate::util::libcrux_wrap::{libcrux_gen_kdf_key_auth, spec_hkdf_sha256};

verus! {

broadcast use vstd::array::group_array_axioms;

/// The 64 expanded bytes of a PQXDH secret.
pub open spec fn spec_expand_pqxdh(sk: Seq<u8>) -> Seq<u8> {
    spec_hkdf_sha256(64, zero_bytes(32), sk, "EXPANDED_SHARED_SECRET_FROM_PQXDH".spec_bytes())
}

/// Expands the PQXDH secret into the Diffie-Hellman ratchet's secret (the
/// first half) and the sparse ratchet's secret (the second half).
pub fn expand_pqxdh_sk(sk: [u8; SHARED_SECRET_SIZE]) -> (res: ([u8; SHARED_SECRET_SIZE], [u8; SHARED_SECRET_SIZE]))
    ensures
        res.0@ == spec_expand_pqxdh(sk@).subrange(0, 32),
        res.1@ == spec_expand_pqxdh(sk@).subrange(32, 64),
{
    let salt = zeros_32();
    proof {
        reveal_strlit("EXPANDED_SHARED_SECRET_FROM_PQXDH");
        vstd::string::is_ascii_spec_bytes("EXPANDED_SHARED_SECRET_FROM_PQXDH");
    }
    let expand_sk = libcrux_gen_kdf_key_auth(&salt, &sk, "EXPANDED_SHARED_SECRET_FROM_PQXDH".as_bytes());
    let ec_sk: [u8; SHARED_SECRET_SIZE] = extract_chunk::<SHARED_SECRET_SIZE>(&expand_sk, 0);
    let scka_sk: [u8; SHARED_SECRET_SIZE] = extract_chunk::<SHARED_SECRET_SIZE>(&expand_sk, SHARED_SECRET_SIZE);
    (ec_sk, scka_sk)
}

} // verus!
