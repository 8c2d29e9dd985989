use vstd::prelude::*;
use vstd::string::StringSliceAdditionalSpecFns;
use crate::util::libcrux_wrap::{libcrux_gen_kdf_key, spec_hkdf_sha256};

verus! {

/// One step of a KDF chain keyed by `kdf_key` with input `input`: the new
/// chain key and an output key, two HKDFs under different labels.
pub fn make_kdf_chain_key_pair(kdf_key: &[u8], input: &[u8]) -> (res: ([u8; 32], [u8; 32]))
    requires
        kdf_key@.len() <= u32::MAX,
        input@.len() <= u32::MAX,
    ensures
        res.0@ == spec_hkdf_sha256(32, input@, kdf_key@, "kdf_key".spec_bytes()),
        res.1@ == spec_hkdf_sha256(32, input@, kdf_key@, "output_key".spec_bytes()),
{
    proof {
        reveal_strlit("kdf_key");
        reveal_strlit("output_key");
        vstd::string::is_ascii_spec_bytes("kdf_key");
        vstd::string::is_ascii_spec_bytes("output_key");
    }
    let new_kdf_key = libcrux_gen_kdf_key(input, kdf_key, "kdf_key".as_bytes());
    let output_key = libcrux_gen_kdf_key(input, kdf_key, "output_key".as_bytes());
    (new_kdf_key, output_key)
}

} // verus!
