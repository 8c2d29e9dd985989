use vstd::prelude::*;
use vstd::string::StringSliceAdditionalSpecFns;
use crate::util::constants::{CHAIN_KEY_SIZE, MESSAGE_KEY_SIZE, PROTOCOL_INFO, ROOT_CHAIN_KEY_SIZE, SHARED_SECRET_SIZE};
use crate::util::keys::{ChainKey, MessageKey, RootChainKey};
use crate::util::helper_func::{append_bytes, extract_chunk, push_decimal, spec_decimal, lemma_decimal_len, zero_bytes, zeros_32};
use crate::util::libcrux_wrap::{
    libcrux_gen_kdf_key, libcrux_gen_kdf_key_auth, libcrux_gen_kdf_key_scka_init, libcrux_gen_kdf_key_scka_rk,
    libcrux_hmac_sha2_256, lemma_protocol_info_len, scka_init_info, scka_rk_info, spec_hkdf_sha256, spec_hmac_sha256,
};

verus! {

broadcast use vstd::array::group_array_axioms;

/// The role of a key derivation chain.
#[derive(Debug, PartialEq, Eq, Structural, Clone, Copy)]
pub enum TypChain {
    Root,
    Sending,
    Receiving,
}

/// A key derivation chain: its role, its current key, and how many steps
/// it has taken.
#[derive(Debug, Clone, Copy)]
pub struct KdfChain {
    pub typ_chain: TypChain,
    pub kdf_key: [u8; 32],
    pub counter: u64,
}

/// New root key of a root chain step: HKDF with the old root key as salt.
pub open spec fn spec_kdf_rk_root(rk: Seq<u8>, dh_out: Seq<u8>) -> Seq<u8> {
    spec_hkdf_sha256(32, rk, dh_out, "kdf_rk".spec_bytes())
}

/// New chain key of a root chain step: HKDF with the new root key as salt.
pub open spec fn spec_kdf_rk_chain(rk: Seq<u8>, dh_out: Seq<u8>) -> Seq<u8> {
    spec_hkdf_sha256(32, spec_kdf_rk_root(rk, dh_out), dh_out, "kdf_cks".spec_bytes())
}

/// Message key of a symmetric chain step.
pub open spec fn spec_kdf_ck_message(ck: Seq<u8>) -> Seq<u8> {
    spec_hmac_sha256(ck, seq![49u8])
}

/// Next chain key of a symmetric chain step.
pub open spec fn spec_kdf_ck_chain(ck: Seq<u8>) -> Seq<u8> {
    spec_hmac_sha256(ck, seq![50u8])
}

/// Info of the sparse ratchet's chain step number `counter`.
pub open spec fn scka_ck_info(counter: u64) -> Seq<u8> {
    PROTOCOL_INFO.spec_bytes() + ", ".spec_bytes() + spec_decimal(counter as nat) + ",  Chain Add Epoch".spec_bytes()
}

/// The 64 bytes of the sparse ratchet's chain step: chain key, then message key.
pub open spec fn spec_kdf_scka_ck(kdf_key: Seq<u8>, counter: u64) -> Seq<u8> {
    spec_hkdf_sha256(64, zero_bytes(32), kdf_key, scka_ck_info(counter))
}

/// Splits 96 bytes into a root key and two chain keys.
pub open spec fn split3(okm: Seq<u8>, rk: RootChainKey, ck1: ChainKey, ck2: ChainKey) -> bool {
    rk.0@ == okm.subrange(0, 32) && ck1.0@ == okm.subrange(32, 64) && ck2.0@ == okm.subrange(64, 96)
}

impl KdfChain {
    /// A chain of the given role starting from `initial_key` at `counter`.
    pub fn new(typ_chain: TypChain, initial_key: [u8; 32], counter: u64) -> (res: Self)
        ensures
            res.typ_chain == typ_chain,
            res.kdf_key == initial_key,
            res.counter == counter,
    {
        if typ_chain == TypChain::Root {
            Self { typ_chain, kdf_key: initial_key, counter }
        } else {
            Self { typ_chain, kdf_key: initial_key, counter }
        }
    }

    /// Root chain step of the Diffie-Hellman ratchet: a new root key and a
    /// new chain key from the old root key and a DH output.
    pub fn kdf_rk(rk: RootChainKey, dh_out: [u8; 32]) -> (res: (RootChainKey, ChainKey))
        ensures
            res.0.0@ == spec_kdf_rk_root(rk.0@, dh_out@),
            res.1.0@ == spec_kdf_rk_chain(rk.0@, dh_out@),
    {
        proof {
            reveal_strlit("kdf_rk");
            reveal_strlit("kdf_cks");
            vstd::string::is_ascii_spec_bytes("kdf_rk");
            vstd::string::is_ascii_spec_bytes("kdf_cks");
        }
        let new_rk = libcrux_gen_kdf_key(&rk.0, &dh_out, "kdf_rk".as_bytes());
        let new_cks = libcrux_gen_kdf_key(&new_rk, &dh_out, "kdf_cks".as_bytes());
        (RootChainKey(new_rk), ChainKey(new_cks))
    }

    /// Symmetric chain step: a message key and the next chain key, both
    /// HMACs of the chain key. Fails on a missing chain key.
    pub fn kdf_ck<'a>(ck: Option<ChainKey>) -> (res: Result<(MessageKey, ChainKey), &'a str>)
        ensures
            match ck {
                Some(c) => res matches Ok((mk, nck)) && mk.0@ == spec_kdf_ck_message(c.0@)
                    && nck.0@ == spec_kdf_ck_chain(c.0@),
                None => res matches Err(e) && e@ == "Chain key should not be None"@,
            },
    {
        let ck_n = match ck {
            Some(ck) => ck.0,
            None => return Err("Chain key should not be None"),
        };
        let message_key_data: [u8; 1] = [49u8];
        let chain_key_data: [u8; 1] = [50u8];
        assert(message_key_data@ =~= seq![49u8]);
        assert(chain_key_data@ =~= seq![50u8]);
        let message_key = libcrux_hmac_sha2_256(&ck_n, &message_key_data);
        let next_chain_key = libcrux_hmac_sha2_256(&ck_n, &chain_key_data);
        Ok((MessageKey(message_key), ChainKey(next_chain_key)))
    }

    /// Initial key derivation of the sparse ratchet: a root key and two
    /// chain keys from the shared secret.
    pub fn kdf_scka_init(ss: &[u8; SHARED_SECRET_SIZE]) -> (res: Result<(RootChainKey, ChainKey, ChainKey), String>)
        ensures
            res matches Ok((rk, ck1, ck2))
                && split3(spec_hkdf_sha256(96, zero_bytes(32), ss@, scka_init_info()), rk, ck1, ck2),
    {
        let salt = zeros_32();
        let triple_kdf_key: [u8; 96] = libcrux_gen_kdf_key_scka_init(&salt, ss);
        let rk: [u8; ROOT_CHAIN_KEY_SIZE] = extract_chunk::<ROOT_CHAIN_KEY_SIZE>(&triple_kdf_key, 0);
        let ck1: [u8; CHAIN_KEY_SIZE] = extract_chunk::<CHAIN_KEY_SIZE>(&triple_kdf_key, ROOT_CHAIN_KEY_SIZE);
        let ck2: [u8; CHAIN_KEY_SIZE] = extract_chunk::<CHAIN_KEY_SIZE>(&triple_kdf_key, ROOT_CHAIN_KEY_SIZE + CHAIN_KEY_SIZE);
        Ok((RootChainKey(rk), ChainKey(ck1), ChainKey(ck2)))
    }

    /// Root step of the sparse ratchet: a new root key and two chain keys
    /// from the old root key and an epoch's output key.
    pub fn kdf_scka_rk<'a>(rk: RootChainKey, key: [u8; 32]) -> (res: Result<(RootChainKey, ChainKey, ChainKey), &'a str>)
        ensures
            res matches Ok((nrk, ck1, ck2)) && split3(spec_hkdf_sha256(96, rk.0@, key@, scka_rk_info()), nrk, ck1, ck2),
    {
        let triple_kdf_key: [u8; 96] = libcrux_gen_kdf_key_scka_rk(&rk.0, &key);
        let nrk: [u8; ROOT_CHAIN_KEY_SIZE] = extract_chunk::<ROOT_CHAIN_KEY_SIZE>(&triple_kdf_key, 0);
        let ck1: [u8; CHAIN_KEY_SIZE] = extract_chunk::<CHAIN_KEY_SIZE>(&triple_kdf_key, ROOT_CHAIN_KEY_SIZE);
        let ck2: [u8; CHAIN_KEY_SIZE] = extract_chunk::<CHAIN_KEY_SIZE>(&triple_kdf_key, ROOT_CHAIN_KEY_SIZE + CHAIN_KEY_SIZE);
        Ok((RootChainKey(nrk), ChainKey(ck1), ChainKey(ck2)))
    }

    /// Chain step number `counter` of the sparse ratchet: the next chain key
    /// and a message key, the two halves of an HKDF whose info holds the
    /// counter in decimal.
    pub fn kdf_scka_ck(kdf_key: [u8; MESSAGE_KEY_SIZE], counter: u64) -> (res: Result<(ChainKey, MessageKey), String>)
        ensures
            res matches Ok((ck, mk)) && ck.0@ == spec_kdf_scka_ck(kdf_key@, counter).subrange(0, 32)
                && mk.0@ == spec_kdf_scka_ck(kdf_key@, counter).subrange(32, 64),
    {
        let mut info: Vec<u8> = Vec::new();
        append_bytes(&mut info, PROTOCOL_INFO.as_bytes());
        append_bytes(&mut info, ", ".as_bytes());
        push_decimal(counter, &mut info);
        append_bytes(&mut info, ",  Chain Add Epoch".as_bytes());
        proof {
            lemma_protocol_info_len();
            lemma_decimal_len(counter);
            reveal_strlit(", ");
            reveal_strlit(",  Chain Add Epoch");
            vstd::string::is_ascii_spec_bytes(", ");
            vstd::string::is_ascii_spec_bytes(",  Chain Add Epoch");
            assert(info@ =~= scka_ck_info(counter));
        }
        let salt = zeros_32();
        let double_key: [u8; 64] = libcrux_gen_kdf_key_auth(&salt, &kdf_key, info.as_slice());
        let ck: [u8; CHAIN_KEY_SIZE] = extract_chunk::<CHAIN_KEY_SIZE>(&double_key, 0);
        let mk: [u8; MESSAGE_KEY_SIZE] = extract_chunk::<MESSAGE_KEY_SIZE>(&double_key, CHAIN_KEY_SIZE);
        Ok((ChainKey(ck), MessageKey(mk)))
    }
}

} // verus!
