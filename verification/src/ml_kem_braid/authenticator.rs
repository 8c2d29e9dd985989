use vstd::prelude::*;
use vstd::string::StringSliceAdditionalSpecFns;
use crate::ml_kem_braid::ml_kem_braid_impl::MlKemHeader;
use crate::util::constants::{MAC_SIZE, PROTOCOL_INFO, ROOT_CHAIN_KEY_SIZE};
use crate::util::keys::ML_KEM_768_CT_SIZE;
use crate::util::helper_func::{
    append_bytes, bytes_equal, extract_chunk, spec_u64_be, spec_u64_le, u64_to_be_bytes, u64_to_le_bytes,
    zero_bytes, zeros_32,
};
use crate::util::libcrux_wrap::{
    libcrux_gen_kdf_key, libcrux_gen_kdf_key_auth, libcrux_hmac_sha2_256, lemma_protocol_info_len,
    spec_hkdf_sha256, spec_hmac_sha256,
};

verus! {

broadcast use vstd::array::group_array_axioms;

/// Label of an authenticator update at `epoch`.
pub open spec fn auth_update_label(epoch: u64) -> Seq<u8> {
    "HACSS_MLKEM768_SHA-256 : Authenticator Update ".spec_bytes() + spec_u64_le(epoch)
}

/// (root key, MAC key) after an update of the root key `root_key` with `key` at `epoch`.
pub open spec fn spec_auth_update(root_key: Seq<u8>, epoch: u64, key: Seq<u8>) -> (Seq<u8>, Seq<u8>) {
    let okm = spec_hkdf_sha256(64, root_key, key, auth_update_label(epoch));
    (okm.subrange(0, 32), okm.subrange(32, 64))
}

/// Data authenticated for an encapsulation key header.
pub open spec fn mac_hdr_data(epoch: u64, ek_seed: Seq<u8>, hek: Seq<u8>) -> Seq<u8> {
    PROTOCOL_INFO.spec_bytes() + ":ekheader".spec_bytes() + spec_u64_be(epoch) + ek_seed + hek
}

/// Data authenticated for a ciphertext.
pub open spec fn mac_ct_data(epoch: u64, ct: Seq<u8>) -> Seq<u8> {
    PROTOCOL_INFO.spec_bytes() + ":ciphertext".spec_bytes() + spec_u64_be(epoch) + ct
}

/// Info of the derivation of an epoch's output key.
pub open spec fn kdf_ok_info(epoch: u64) -> Seq<u8> {
    PROTOCOL_INFO.spec_bytes() + ":SCKA Key".spec_bytes() + spec_u64_be(epoch)
}

/// The output key of an epoch, derived from the KEM shared secret.
pub open spec fn spec_kdf_ok(shared_secret: Seq<u8>, epoch: u64) -> Seq<u8> {
    spec_hkdf_sha256(32, zero_bytes(32), shared_secret, kdf_ok_info(epoch))
}

/// The ratcheted authenticator of the braid: a root key and, once updated, a MAC key.
#[derive(Clone, Copy, Debug)]
pub struct Authenticator {
    pub root_key: [u8; 32],
    pub mac_key: Option<[u8; 32]>,
}

/// The authenticator state as (root key, MAC key).
pub open spec fn auth_view(a: Authenticator) -> (Seq<u8>, Option<Seq<u8>>) {
    (a.root_key@, match a.mac_key { Some(k) => Some(k@), None => None })
}

impl Authenticator {
    /// A fresh authenticator (zero root key) updated with `key` at `epoch`.
    pub fn new(epoch: u64, key: &[u8; 32]) -> (res: Self)
        ensures
            res.root_key@ == spec_auth_update(zero_bytes(32), epoch, key@).0,
            res.mac_key matches Some(m) && m@ == spec_auth_update(zero_bytes(32), epoch, key@).1,
    {
        let mut auth_state = Self { root_key: zeros_32(), mac_key: None };
        let _ = auth_state.update_auth_state(epoch, key);
        auth_state
    }

    /// Approximate memory footprint in bytes.
    pub fn size(&self) -> (res: usize)
        ensures
            res == 33 + if self.mac_key is Some { 32nat } else { 0nat },
    {
        32 + 1 + match self.mac_key {
            Some(_) => 32,
            None => 0,
        }
    }

    /// Mixes `key` into the authenticator at `epoch`: the new root key and
    /// MAC key are the two halves of an HKDF keyed by the old root key.
    pub fn update_auth_state<'a>(&mut self, epoch: u64, key: &[u8; 32]) -> (res: Result<(), &'a str>)
        ensures
            res is Ok,
            final(self).root_key@ == spec_auth_update(old(self).root_key@, epoch, key@).0,
            final(self).mac_key matches Some(m) && m@ == spec_auth_update(old(self).root_key@, epoch, key@).1,
    {
        let mut label: Vec<u8> = Vec::new();
        append_bytes(&mut label, "HACSS_MLKEM768_SHA-256 : Authenticator Update ".as_bytes());
        let epoch_bytes = u64_to_le_bytes(epoch);
        append_bytes(&mut label, &epoch_bytes);
        proof {
            reveal_strlit("HACSS_MLKEM768_SHA-256 : Authenticator Update ");
            vstd::string::is_ascii_spec_bytes("HACSS_MLKEM768_SHA-256 : Authenticator Update ");
        }
        let concat_key = libcrux_gen_kdf_key_auth(&self.root_key, key, label.as_slice());
        let root_key: [u8; ROOT_CHAIN_KEY_SIZE] = extract_chunk::<ROOT_CHAIN_KEY_SIZE>(&concat_key, 0);
        let mac_key: [u8; MAC_SIZE] = extract_chunk::<MAC_SIZE>(&concat_key, MAC_SIZE);
        self.root_key = root_key;
        self.mac_key = Some(mac_key);
        Ok(())
    }

    /// MAC of an encapsulation key header at `epoch`; fails when the
    /// authenticator has no MAC key.
    pub fn mac_hdr<'a>(&mut self, epoch: u64, hdr: MlKemHeader) -> (res: Result<[u8; MAC_SIZE], &'a str>)
        ensures
            *final(self) == *old(self),
            match res {
                Ok(mac) => old(self).mac_key matches Some(k)
                    && mac@ == spec_hmac_sha256(k@, mac_hdr_data(epoch, hdr.ek_seed@, hdr.hek@)),
                Err(_) => old(self).mac_key is None,
            },
    {
        let mut data: Vec<u8> = Vec::new();
        append_bytes(&mut data, PROTOCOL_INFO.as_bytes());
        append_bytes(&mut data, ":ekheader".as_bytes());
        let epoch_bytes = u64_to_be_bytes(epoch);
        append_bytes(&mut data, &epoch_bytes);
        append_bytes(&mut data, &hdr.ek_seed);
        append_bytes(&mut data, &hdr.hek);
        proof {
            lemma_protocol_info_len();
            reveal_strlit(":ekheader");
            vstd::string::is_ascii_spec_bytes(":ekheader");
        }
        let mac_key = match self.mac_key {
            Some(mk) => mk,
            None => return Err("Could not find mac key"),
        };
        Ok(libcrux_hmac_sha2_256(&mac_key, data.as_slice()))
    }

    /// MAC of a full ciphertext at `epoch`; fails when the authenticator has
    /// no MAC key.
    pub fn mac_ct<'a>(&mut self, epoch: u64, ct: [u8; ML_KEM_768_CT_SIZE]) -> (res: Result<[u8; 32], &'a str>)
        ensures
            *final(self) == *old(self),
            match res {
                Ok(mac) => old(self).mac_key matches Some(k)
                    && mac@ == spec_hmac_sha256(k@, mac_ct_data(epoch, ct@)),
                Err(_) => old(self).mac_key is None,
            },
    {
        let mut data: Vec<u8> = Vec::new();
        append_bytes(&mut data, PROTOCOL_INFO.as_bytes());
        append_bytes(&mut data, ":ciphertext".as_bytes());
        let epoch_bytes = u64_to_be_bytes(epoch);
        append_bytes(&mut data, &epoch_bytes);
        append_bytes(&mut data, &ct);
        proof {
            lemma_protocol_info_len();
            reveal_strlit(":ciphertext");
            vstd::string::is_ascii_spec_bytes(":ciphertext");
        }
        let key = match self.mac_key {
            Some(key) => key,
            None => return Err("Couldn't find any mac key"),
        };
        Ok(libcrux_hmac_sha2_256(&key, data.as_slice()))
    }

    /// Checks the MAC of an encapsulation key header.
    pub fn vfy_hdr<'a>(&mut self, epoch: u64, hdr: MlKemHeader, expected_mac: [u8; 32]) -> (res: Result<(), &'a str>)
        ensures
            *final(self) == *old(self),
            res is Ok <==> (old(self).mac_key matches Some(k)
                && expected_mac@ == spec_hmac_sha256(k@, mac_hdr_data(epoch, hdr.ek_seed@, hdr.hek@))),
    {
        let mac_hdr = match self.mac_hdr(epoch, hdr) {
            Ok(mac_hdr) => mac_hdr,
            Err(_e) => return Err("Should be able to create the MAC for the header"),
        };
        if !bytes_equal(&expected_mac, &mac_hdr) {
            return Err("Expected MAC and actual MAC are not equal for the header");
        }
        Ok(())
    }

    /// Checks the MAC of a full ciphertext.
    pub fn vfy_ct<'a>(&mut self, epoch: u64, ct: [u8; ML_KEM_768_CT_SIZE], expected_mac: [u8; 32]) -> (res: Result<(), &'a str>)
        ensures
            *final(self) == *old(self),
            res is Ok <==> (old(self).mac_key matches Some(k)
                && expected_mac@ == spec_hmac_sha256(k@, mac_ct_data(epoch, ct@))),
    {
        let mac_ct = match self.mac_ct(epoch, ct) {
            Ok(mac_ct) => mac_ct,
            Err(_e) => return Err("Should be able to create the MAC for the ciphertext"),
        };
        if !bytes_equal(&expected_mac, &mac_ct) {
            return Err("Expected MAC and actual MAC are not equal for the ciphertext - Start a new Session");
        }
        Ok(())
    }

    /// Derives an epoch's output key from the KEM shared secret.
    pub fn kdf_ok(shared_secret: [u8; 32], epoch: u64) -> (res: [u8; 32])
        ensures
            res@ == spec_kdf_ok(shared_secret@, epoch),
    {
        let mut data: Vec<u8> = Vec::new();
        append_bytes(&mut data, PROTOCOL_INFO.as_bytes());
        append_bytes(&mut data, ":SCKA Key".as_bytes());
        let epoch_bytes = u64_to_be_bytes(epoch);
        append_bytes(&mut data, &epoch_bytes);
        proof {
            lemma_protocol_info_len();
            reveal_strlit(":SCKA Key");
            vstd::string::is_ascii_spec_bytes(":SCKA Key");
        }
        let salt = zeros_32();
        libcrux_gen_kdf_key(&salt, &shared_secret, data.as_slice())
    }
}

} // verus!
