use vstd::prelude::*;
use crate::server::server_impl::fetched_from;
use vstd::string::StringSliceAdditionalSpecFns;
use zeroize::Zeroize;
use crate::util::keys;
use crate::util::helper_func::{concat, extract_chunk, make_randomness, zero_bytes};
use crate::util::libcrux_wrap::{
    libcrux_aead_decrypts_ad_initial_message, libcrux_aead_encrypts_ad_initial_message, libcrux_ecdh_x25519_derive,
    libcrux_gen_kdf_key, libcrux_ml_dsa_generate_key_pair, libcrux_ml_dsa_sign, libcrux_ml_dsa_verify,
    libcrux_ml_kem_768_encaps, libcrux_ml_kem_decapsulate, libcrux_ml_kem_generate_key_pair,
    spec_chacha20poly1305_decrypt, spec_chacha20poly1305_encrypt, spec_hkdf_sha256, spec_ml_dsa_65_key_pair,
    spec_ml_dsa_65_sign, spec_ml_dsa_65_verify, spec_ml_kem_768_decapsulate, spec_ml_kem_768_encapsulate,
    spec_ml_kem_768_key_pair, spec_x25519_derive,
};
use crate::util::keys::ML_KEM_768_CT_SIZE;
use crate::util::messages::{IDUseNameKey, MessageType};
use crate::util::user_map::{UserId, clone_id, key_view};
use crate::client::session::{Session, SessionStore, fresh_session};
use crate::util::expand_pqxdh_keys::spec_expand_pqxdh;
use crate::triple_ratchet::triple_ratchet_impl::{fresh_initiator_tr, fresh_responder_tr};

verus! {

/// The X25519 public key of a private key, as
/// `libcrux_ecdh::x25519::secret_to_public` computes it.
pub uninterp spec fn spec_x25519_public(private_key: Seq<u8>) -> Seq<u8>;

/// Calls `libcrux_ecdh::x25519_key_gen` with the thread-local generator of
/// `rand`. The crate draws a non-zero, clamped private key from the
/// generator and returns it with `secret_to_public` of it; it fails only
/// when the generator fails, and the call then panics. Claims that the
/// public key is the named public key of the private key.
#[verifier::external_body]
fn libcrux_ecdh_key_gen_to_bytes() -> (res: ([u8; 32], [u8; 32]))
    ensures
        res.1@ == spec_x25519_public(res.0@),
{
    let mut rng = rand::rng();
    let (private_key, public_key) = libcrux_ecdh::x25519_key_gen(&mut rng).expect("Key generation failed");
    (private_key.0, public_key.0)
}

/// A fresh X25519 key pair.
pub fn gen_curve_key_pair() -> (res: keys::X25519KeyPair)
    ensures
        res.public_key.0@ == spec_x25519_public(res.private_key.0@),
{
    let (private_key, public_key) = libcrux_ecdh_key_gen_to_bytes();
    keys::X25519KeyPair { private_key: keys::X25519PrivateKey(private_key), public_key: keys::X25519PublicKey(public_key) }
}


/// Calls `Zeroize::zeroize` of the `zeroize` crate on a byte array, which
/// overwrites every byte with zero.
#[verifier::external_body]
fn zeroize_bytes<const N: usize>(bytes: &mut [u8; N])
    ensures
        final(bytes)@ == zero_bytes(N as nat),
{
    bytes.zeroize();
}

/// Which prekey counter to advance.
pub enum TypeCounter {
    SpkCounter,
    PqspkCounter,
    OpkCounter,
    PqOpkCounter,
}

/// A user's PQXDH state: its key bundle and the counters that number new
/// prekeys.
pub struct PQXDHState {
    pub keybundle: keys::UserKeyBundle,
    pub spk_counter: u32,
    pub pqspk_counter: u32,
    pub opk_counter: u32,
    pub pq_opk_counter: u32,
}

/// Context of the signature on the X25519 signed prekey.
pub open spec fn spk_context() -> Seq<u8> {
    "Sig(IK, EncodeEC(SPK), Z_SPK)".spec_bytes()
}

/// Context of the signature on the ML-KEM signed prekey.
pub open spec fn pqspk_context() -> Seq<u8> {
    "Sig(IK, EncodeKEM(PQSPK), ZPQSPK)".spec_bytes()
}

/// Context of the signatures on the ML-KEM one-time prekeys.
pub open spec fn pq_opk_context() -> Seq<u8> {
    "(PQOPK, id, Sig(IK, EncodeKEM(PQOPK), Z))".spec_bytes()
}

/// ML-DSA refuses to sign under `context` with the signing key `sk`: for
/// some message and some signing randomness, there is no signature.
pub open spec fn dsa_refuses(sk: Seq<u8>, context: Seq<u8>) -> bool {
    exists|m: Seq<u8>, r: Seq<u8>| r.len() == 32 && #[trigger] spec_ml_dsa_65_sign(sk, m, context, r) is None
}

/// ML-DSA refuses to sign under `context` with a signing key drawn from
/// some key generation randomness.
pub open spec fn dsa_refuses_drawn(context: Seq<u8>) -> bool {
    exists|kr: Seq<u8>| kr.len() == 32 && #[trigger] dsa_refuses(spec_ml_dsa_65_key_pair(kr).0, context)
}

/// Making a key bundle fails only where ML-DSA refuses to sign one of its
/// prekeys with the drawn identity key.
pub open spec fn bundle_signing_refused() -> bool {
    dsa_refuses_drawn(spk_context()) || dsa_refuses_drawn(pqspk_context()) || dsa_refuses_drawn(pq_opk_context())
}

/// An X25519 key pair whose public key belongs to its private key.
pub open spec fn curve_pair_ok(kp: keys::X25519KeyPair) -> bool {
    kp.public_key.0@ == spec_x25519_public(kp.private_key.0@)
}

/// An ML-KEM-768 key pair drawn from some randomness.
pub open spec fn kem_pair_ok(kp: keys::PQKeyPair) -> bool {
    exists|r: Seq<u8>| r.len() == 64 && #[trigger] spec_ml_kem_768_key_pair(r) == (kp.secret_key.0@, kp.public_key.0@)
}

/// A signature of `message` under `context` by the signing key, with some
/// signing randomness.
pub open spec fn signed_by(sig: Seq<u8>, signing_key: Seq<u8>, message: Seq<u8>, context: Seq<u8>) -> bool {
    exists|r: Seq<u8>| r.len() == 32 && #[trigger] spec_ml_dsa_65_sign(signing_key, message, context, r) == Some(sig)
}

/// A freshly set up key bundle: identity keys, a signed prekey and a signed
/// ML-KEM prekey (both numbered 0), and twenty one-time prekeys of each kind
/// numbered 0 to 19, the ML-KEM ones signed.
pub open spec fn fresh_bundle(b: keys::UserKeyBundle) -> bool {
    let sk = b.identity.dsa.signing_key.0@;
    &&& curve_pair_ok(b.identity.dh)
    &&& exists|r: Seq<u8>| r.len() == 32 && #[trigger] spec_ml_dsa_65_key_pair(r) == (sk, b.identity.dsa.verification_key.0@)
    &&& b.spk.id == 0 && curve_pair_ok(b.spk.key) && signed_by(b.spk.sig@, sk, b.spk.key.public_key.0@, spk_context())
    &&& b.pqspk.id == 0 && kem_pair_ok(b.pqspk.key) && signed_by(b.pqspk.sig@, sk, b.pqspk.key.public_key.0@, pqspk_context())
    &&& b.spk_prev is None && b.pqspk_prev is None
    &&& b.opks@.len() == 20
    &&& forall|i: int| 0 <= i < 20 ==> (#[trigger] b.opks@[i]).id == i && curve_pair_ok(b.opks@[i].key)
    &&& b.pq_opks@.len() == 20
    &&& forall|i: int| 0 <= i < 20 ==> (#[trigger] b.pq_opks@[i]).id == i && kem_pair_ok(b.pq_opks@[i].key)
        && signed_by(b.pq_opks@[i].sig@, sk, b.pq_opks@[i].key.public_key.0@, pq_opk_context())
}

/// A fresh ML-KEM-768 key pair, as the library's key type.
fn gen_kem_key_pair() -> (res: keys::PQKeyPair)
    ensures
        kem_pair_ok(res),
{
    let pq_keypair = libcrux_ml_kem_generate_key_pair();
    keys::PQKeyPair { public_key: keys::EncapsulationKey(pq_keypair.1), secret_key: keys::DecapsulationKey(pq_keypair.0) }
}

/// Sets up a user's key bundle. Fails where ML-DSA refuses the signing
/// randomness it drew.
pub fn setup_user_key_bundle<'a>() -> (res: Result<keys::UserKeyBundle, &'a str>)
    ensures
        res matches Ok(b) ==> fresh_bundle(b),
        res is Err ==> bundle_signing_refused(),
{
    let id_key_pair = gen_curve_key_pair();
    let (signing_key, verification_key) = libcrux_ml_dsa_generate_key_pair();
    let ghost kr = choose|r: Seq<u8>| r.len() == 32 && #[trigger] spec_ml_dsa_65_key_pair(r) == (signing_key@, verification_key@);
    let id_signing_key_pair = keys::IdentityDSAKey {
        signing_key: keys::MLDSA65SigningKey(signing_key),
        verification_key: keys::MLDSA65VerificationKey(verification_key),
    };
    let pre_key_pair = gen_curve_key_pair();
    proof {
        reveal_strlit("Sig(IK, EncodeEC(SPK), Z_SPK)");
        reveal_strlit("Sig(IK, EncodeKEM(PQSPK), ZPQSPK)");
        reveal_strlit("(PQOPK, id, Sig(IK, EncodeKEM(PQOPK), Z))");
    }
    let spk_signature_byte = match libcrux_ml_dsa_sign(&id_signing_key_pair.signing_key, &pre_key_pair.public_key.0,
        "Sig(IK, EncodeEC(SPK), Z_SPK)".as_bytes()) {
        Ok(sig) => sig,
        Err(e) => {
            proof {
                assert(dsa_refuses(spec_ml_dsa_65_key_pair(kr).0, spk_context()));
            }
            return Err(e);
        },
    };
    let signed_pre_key = keys::SignedPreKey { id: 0, key: pre_key_pair, sig: spk_signature_byte };
    let pq_last_resort_pair = gen_kem_key_pair();
    let pq_spk_signature = match libcrux_ml_dsa_sign(&id_signing_key_pair.signing_key, &pq_last_resort_pair.public_key.0,
        "Sig(IK, EncodeKEM(PQSPK), ZPQSPK)".as_bytes()) {
        Ok(sig) => sig,
        Err(e) => {
            proof {
                assert(dsa_refuses(spec_ml_dsa_65_key_pair(kr).0, pqspk_context()));
            }
            return Err(e);
        },
    };
    let pq_signed_pre_key = keys::PQSignedPreKey { id: 0, key: pq_last_resort_pair, sig: pq_spk_signature };
    let mut one_pre_keys: Vec<keys::OneTimePreKey> = Vec::new();
    let mut i: u32 = 0;
    while i < 20
        invariant
            i <= 20,
            one_pre_keys@.len() == i,
            forall|j: int| 0 <= j < i ==> (#[trigger] one_pre_keys@[j]).id == j && curve_pair_ok(one_pre_keys@[j].key),
        decreases 20 - i,
    {
        let opk_key_pair = gen_curve_key_pair();
        one_pre_keys.push(keys::OneTimePreKey { id: i, key: opk_key_pair });
        i = i + 1;
    }
    let mut pq_one_pre_keys: Vec<keys::PQOneTimePreKey> = Vec::new();
    let mut k: u32 = 0;
    while k < 20
        invariant
            k <= 20,
            pq_one_pre_keys@.len() == k,
            kr.len() == 32,
            spec_ml_dsa_65_key_pair(kr).0 == id_signing_key_pair.signing_key.0@,
            forall|j: int| 0 <= j < k ==> (#[trigger] pq_one_pre_keys@[j]).id == j && kem_pair_ok(pq_one_pre_keys@[j].key)
                && signed_by(pq_one_pre_keys@[j].sig@, id_signing_key_pair.signing_key.0@,
                    pq_one_pre_keys@[j].key.public_key.0@, pq_opk_context()),
        decreases 20 - k,
    {
        let pq_key_pair = gen_kem_key_pair();
        let pq_opk_signature = match libcrux_ml_dsa_sign(&id_signing_key_pair.signing_key, &pq_key_pair.public_key.0,
            "(PQOPK, id, Sig(IK, EncodeKEM(PQOPK), Z))".as_bytes()) {
            Ok(sig) => sig,
            Err(e) => {
                proof {
                    assert(dsa_refuses(spec_ml_dsa_65_key_pair(kr).0, pq_opk_context()));
                }
                return Err(e);
            },
        };
        pq_one_pre_keys.push(keys::PQOneTimePreKey { id: k, key: pq_key_pair, sig: pq_opk_signature });
        k = k + 1;
    }
    let iden_key_pair = keys::IdentityKeys { dh: id_key_pair, dsa: id_signing_key_pair };
    Ok(keys::UserKeyBundle {
        identity: iden_key_pair,
        spk: signed_pre_key,
        spk_prev: None,
        pqspk: pq_signed_pre_key,
        pqspk_prev: None,
        opks: one_pre_keys,
        pq_opks: pq_one_pre_keys,
    })
}


/// One-time prekeys `start .. start + count` added with numbers from
/// `first_id` on, as (public key, number) in `pubs`.
pub open spec fn added_opks(opks: Seq<keys::OneTimePreKey>, start: int, first_id: int, pubs: Seq<(keys::X25519PublicKey, u32)>) -> bool {
    &&& opks.len() == start + pubs.len()
    &&& forall|i: int| 0 <= i < pubs.len() ==> {
        &&& (#[trigger] opks[start + i]).id == first_id + i
        &&& curve_pair_ok(opks[start + i].key)
        &&& pubs[i] == (opks[start + i].key.public_key, opks[start + i].id)
    }
}

/// ML-KEM one-time prekeys `start ..` added with numbers from `first_id`
/// on and signed like the first ones, as (public key, number,
/// signature) in `pubs`.
pub open spec fn added_pq_opks(
    pq_opks: Seq<keys::PQOneTimePreKey>,
    start: int,
    first_id: int,
    signing_key: Seq<u8>,
    pubs: Seq<(keys::EncapsulationKey, u32, [u8; keys::MLDSA_65_SIGNATURE_KEY_SIZE])>,
) -> bool {
    &&& pq_opks.len() == start + pubs.len()
    &&& forall|i: int| 0 <= i < pubs.len() ==> {
        &&& (#[trigger] pq_opks[start + i]).id == first_id + i
        &&& kem_pair_ok(pq_opks[start + i].key)
        &&& signed_by(pq_opks[start + i].sig@, signing_key, pq_opks[start + i].key.public_key.0@, pq_opk_context())
        &&& pubs[i] == (pq_opks[start + i].key.public_key, pq_opks[start + i].id, pq_opks[start + i].sig)
    }
}

impl PQXDHState {
    /// A user's PQXDH state with a fresh key bundle; the one-time prekey
    /// counters start at 20, past the bundle's twenty one-time prekeys.
    /// Fails where ML-DSA refuses the signing randomness it drew.
    pub fn new<'a>() -> (res: Result<Self, &'a str>)
        ensures
            res matches Ok(s) ==> fresh_bundle(s.keybundle) && s.spk_counter == 0 && s.pqspk_counter == 0
                && s.opk_counter == 20 && s.pq_opk_counter == 20,
            res is Err ==> bundle_signing_refused(),
    {
        let user_key_bundle = match setup_user_key_bundle() {
            Ok(b) => b,
            Err(e) => return Err(e),
        };
        Ok(Self { keybundle: user_key_bundle, spk_counter: 0, pqspk_counter: 0, opk_counter: 20, pq_opk_counter: 20 })
    }

    /// Adds nineteen one-time prekeys (one fewer than the name says: a
    /// refill after the bundle ran out leaves nineteen), numbered on from
    /// the counter, and returns their public keys with their numbers.
    pub fn add_20_opk(&mut self) -> (res: Vec<(keys::X25519PublicKey, u32)>)
        requires
            old(self).opk_counter + 19 <= u32::MAX,
        ensures
            res@.len() == 19,
            added_opks(final(self).keybundle.opks@, old(self).keybundle.opks@.len() as int, old(self).opk_counter + 1, res@),
            final(self).keybundle.opks@.take(old(self).keybundle.opks@.len() as int) == old(self).keybundle.opks@,
            final(self).opk_counter == old(self).opk_counter + 19,
            *final(self) == (PQXDHState {
                keybundle: keys::UserKeyBundle { opks: final(self).keybundle.opks, ..old(self).keybundle },
                opk_counter: final(self).opk_counter,
                ..*old(self)
            }),
    {
        let mut new_opks: Vec<(keys::X25519PublicKey, u32)> = Vec::new();
        let ghost start = self.keybundle.opks@.len() as int;
        let mut i: u32 = 0;
        while i < 19
            invariant
                i <= 19,
                old(self).opk_counter + 19 <= u32::MAX,
                new_opks@.len() == i,
                self.opk_counter == old(self).opk_counter + i,
                start == old(self).keybundle.opks@.len(),
                added_opks(self.keybundle.opks@, start, old(self).opk_counter + 1, new_opks@),
                self.keybundle.opks@.take(start) == old(self).keybundle.opks@,
                *self == (PQXDHState {
                    keybundle: keys::UserKeyBundle { opks: self.keybundle.opks, ..old(self).keybundle },
                    opk_counter: self.opk_counter,
                    ..*old(self)
                }),
            decreases 19 - i,
        {
            let opk_key_pair = gen_curve_key_pair();
            let id = self.get_and_add_counter(TypeCounter::OpkCounter);
            let opk_ot_pair = keys::OneTimePreKey { id, key: opk_key_pair };
            let opk_ot_pub: (keys::X25519PublicKey, u32) = (opk_ot_pair.key.public_key, opk_ot_pair.id);
            let ghost before = self.keybundle.opks@;
            self.keybundle.opks.push(opk_ot_pair);
            new_opks.push(opk_ot_pub);
            proof {
                assert(self.keybundle.opks@.take(start) =~= before.take(start));
            }
            i = i + 1;
        }
        new_opks
    }

    /// Adds twenty signed ML-KEM one-time prekeys, numbered on from the
    /// counter, and returns their public keys, numbers and signatures. Fails
    /// where ML-DSA refuses the signing randomness it drew.
    pub fn add_20_pqs_opk<'a>(&mut self) -> (res: Result<Vec<(keys::EncapsulationKey, u32, [u8; keys::MLDSA_65_SIGNATURE_KEY_SIZE])>, &'a str>)
        requires
            old(self).pq_opk_counter + 20 <= u32::MAX,
        ensures
            final(self).keybundle.pq_opks@.take(old(self).keybundle.pq_opks@.len() as int) == old(self).keybundle.pq_opks@,
            *final(self) == (PQXDHState {
                keybundle: keys::UserKeyBundle { pq_opks: final(self).keybundle.pq_opks, ..old(self).keybundle },
                pq_opk_counter: final(self).pq_opk_counter,
                ..*old(self)
            }),
            res matches Ok(v) ==> v@.len() == 20 && final(self).pq_opk_counter == old(self).pq_opk_counter + 20
                && added_pq_opks(final(self).keybundle.pq_opks@, old(self).keybundle.pq_opks@.len() as int,
                    old(self).pq_opk_counter + 1, old(self).keybundle.identity.dsa.signing_key.0@, v@),
            res is Err ==> dsa_refuses(old(self).keybundle.identity.dsa.signing_key.0@, pq_opk_context()),
    {
        let mut new_pq_opks: Vec<(keys::EncapsulationKey, u32, [u8; keys::MLDSA_65_SIGNATURE_KEY_SIZE])> = Vec::new();
        let ghost start = self.keybundle.pq_opks@.len() as int;
        proof {
            reveal_strlit("(PQOPK, id, Sig(IK, EncodeKEM(PQOPK), Z))");
        }
        let mut i: u32 = 0;
        while i < 20
            invariant
                i <= 20,
                old(self).pq_opk_counter + 20 <= u32::MAX,
                new_pq_opks@.len() == i,
                self.pq_opk_counter == old(self).pq_opk_counter + i,
                start == old(self).keybundle.pq_opks@.len(),
                added_pq_opks(self.keybundle.pq_opks@, start, old(self).pq_opk_counter + 1,
                    old(self).keybundle.identity.dsa.signing_key.0@, new_pq_opks@),
                self.keybundle.pq_opks@.take(start) == old(self).keybundle.pq_opks@,
                *self == (PQXDHState {
                    keybundle: keys::UserKeyBundle { pq_opks: self.keybundle.pq_opks, ..old(self).keybundle },
                    pq_opk_counter: self.pq_opk_counter,
                    ..*old(self)
                }),
            decreases 20 - i,
        {
            let pq_key_pair = gen_kem_key_pair();
            let pq_opk_signature = match libcrux_ml_dsa_sign(&self.keybundle.identity.dsa.signing_key,
                &pq_key_pair.public_key.0, "(PQOPK, id, Sig(IK, EncodeKEM(PQOPK), Z))".as_bytes()) {
                Ok(sig) => sig,
                Err(e) => {
                    proof {
                        assert(dsa_refuses(old(self).keybundle.identity.dsa.signing_key.0@, pq_opk_context()));
                    }
                    return Err(e);
                },
            };
            let id = self.get_and_add_counter(TypeCounter::PqOpkCounter);
            let pq_opk = keys::PQOneTimePreKey { id, key: pq_key_pair, sig: pq_opk_signature };
            let pq_opk_pub = (keys::EncapsulationKey(pq_opk.key.public_key.0), pq_opk.id, pq_opk_signature);
            let ghost before = self.keybundle.pq_opks@;
            self.keybundle.pq_opks.push(pq_opk);
            new_pq_opks.push(pq_opk_pub);
            proof {
                assert(self.keybundle.pq_opks@.take(start) =~= before.take(start));
            }
            i = i + 1;
        }
        Ok(new_pq_opks)
    }

    /// Advances a prekey counter and returns its new value.
    pub fn get_and_add_counter(&mut self, type_of_counter: TypeCounter) -> (res: u32)
        requires
            match type_of_counter {
                TypeCounter::SpkCounter => old(self).spk_counter < u32::MAX,
                TypeCounter::PqspkCounter => old(self).pqspk_counter < u32::MAX,
                TypeCounter::OpkCounter => old(self).opk_counter < u32::MAX,
                TypeCounter::PqOpkCounter => old(self).pq_opk_counter < u32::MAX,
            },
        ensures
            match type_of_counter {
                TypeCounter::SpkCounter => res == old(self).spk_counter + 1
                    && *final(self) == (PQXDHState { spk_counter: res, ..*old(self) }),
                TypeCounter::PqspkCounter => res == old(self).pqspk_counter + 1
                    && *final(self) == (PQXDHState { pqspk_counter: res, ..*old(self) }),
                TypeCounter::OpkCounter => res == old(self).opk_counter + 1
                    && *final(self) == (PQXDHState { opk_counter: res, ..*old(self) }),
                TypeCounter::PqOpkCounter => res == old(self).pq_opk_counter + 1
                    && *final(self) == (PQXDHState { pq_opk_counter: res, ..*old(self) }),
            },
    {
        match type_of_counter {
            TypeCounter::SpkCounter => {
                self.spk_counter = self.spk_counter + 1;
                self.spk_counter
            },
            TypeCounter::PqspkCounter => {
                self.pqspk_counter = self.pqspk_counter + 1;
                self.pqspk_counter
            },
            TypeCounter::OpkCounter => {
                self.opk_counter = self.opk_counter + 1;
                self.opk_counter
            },
            TypeCounter::PqOpkCounter => {
                self.pq_opk_counter = self.pq_opk_counter + 1;
                self.pq_opk_counter
            },
        }
    }
}

/// The secret agreed by PQXDH: HKDF over the concatenated key agreement
/// outputs with the salt and the protocol's info.
pub fn create_sk<const N: usize>(salt: [u8; 32], concat_dh_final: [u8; 160], info: &[u8; N]) -> (res: [u8; 32])
    requires
        N <= u32::MAX,
    ensures
        res@ == spec_hkdf_sha256(32, salt@, concat_dh_final@, info@),
{
    libcrux_gen_kdf_key(&salt, &concat_dh_final, info)
}

/// The public part of a key bundle: the public keys with their numbers and
/// signatures, in the bundle's order.
pub open spec fn public_bundle(kb: keys::UserKeyBundle) -> keys::PrekeyBundleView {
    keys::PrekeyBundleView {
        ik_dh_pub: kb.identity.dh.public_key,
        ik_dsa_pub: keys::MLDSA65VerificationKey(kb.identity.dsa.verification_key.0),
        spk_pub: kb.spk.key.public_key,
        spk_sig: kb.spk.sig,
        spk_id: kb.spk.id,
        pqspk_pub: keys::EncapsulationKey(kb.pqspk.key.public_key.0),
        pqspk_sig: kb.pqspk.sig,
        pqspk_id: kb.pqspk.id,
        opks: kb.opks@.map_values(|o: keys::OneTimePreKey| (o.key.public_key, o.id)),
        pq_s_opks: kb.pq_opks@.map_values(|p: keys::PQOneTimePreKey| (keys::EncapsulationKey(p.key.public_key.0), p.id, p.sig)),
    }
}

/// The public part of a key bundle, for the server.
pub fn setup_pre_key_bundle(user_key_bundle: &keys::UserKeyBundle) -> (res: keys::PrekeyBundle)
    ensures
        res.view() == public_bundle(*user_key_bundle),
        res.ik_dh_pub == user_key_bundle.identity.dh.public_key,
        res.ik_dsa_pub.0 == user_key_bundle.identity.dsa.verification_key.0,
        res.spk_pub == user_key_bundle.spk.key.public_key,
        res.spk_sig == user_key_bundle.spk.sig,
        res.spk_id == user_key_bundle.spk.id,
        res.pqspk_pub.0 == user_key_bundle.pqspk.key.public_key.0,
        res.pqspk_sig == user_key_bundle.pqspk.sig,
        res.pqspk_id == user_key_bundle.pqspk.id,
        res.opks@.len() == user_key_bundle.opks@.len(),
        forall|i: int| 0 <= i < res.opks@.len() ==> #[trigger] res.opks@[i] == (user_key_bundle.opks@[i].key.public_key, user_key_bundle.opks@[i].id),
        res.pq_s_opks@.len() == user_key_bundle.pq_opks@.len(),
        forall|i: int| 0 <= i < res.pq_s_opks@.len() ==> (#[trigger] res.pq_s_opks@[i]).0.0 == user_key_bundle.pq_opks@[i].key.public_key.0
            && res.pq_s_opks@[i].1 == user_key_bundle.pq_opks@[i].id && res.pq_s_opks@[i].2 == user_key_bundle.pq_opks@[i].sig,
{
    let mut opks_for_prekey: Vec<(keys::X25519PublicKey, u32)> = Vec::new();
    let mut i: usize = 0;
    while i < user_key_bundle.opks.len()
        invariant
            i <= user_key_bundle.opks@.len(),
            opks_for_prekey@.len() == i,
            forall|j: int| 0 <= j < i ==> #[trigger] opks_for_prekey@[j] == (user_key_bundle.opks@[j].key.public_key, user_key_bundle.opks@[j].id),
        decreases user_key_bundle.opks@.len() - i,
    {
        let opk = &user_key_bundle.opks[i];
        opks_for_prekey.push((opk.key.public_key, opk.id));
        i = i + 1;
    }
    let mut pq_s_opks_for_prekey: Vec<(keys::EncapsulationKey, u32, [u8; keys::MLDSA_65_SIGNATURE_KEY_SIZE])> = Vec::new();
    let mut k: usize = 0;
    while k < user_key_bundle.pq_opks.len()
        invariant
            k <= user_key_bundle.pq_opks@.len(),
            pq_s_opks_for_prekey@.len() == k,
            forall|j: int| 0 <= j < k ==> (#[trigger] pq_s_opks_for_prekey@[j]).0.0 == user_key_bundle.pq_opks@[j].key.public_key.0
                && pq_s_opks_for_prekey@[j].1 == user_key_bundle.pq_opks@[j].id && pq_s_opks_for_prekey@[j].2 == user_key_bundle.pq_opks@[j].sig,
        decreases user_key_bundle.pq_opks@.len() - k,
    {
        let pq_opk = &user_key_bundle.pq_opks[k];
        pq_s_opks_for_prekey.push((keys::EncapsulationKey(pq_opk.key.public_key.0), pq_opk.id, pq_opk.sig));
        k = k + 1;
    }
    proof {
        assert(opks_for_prekey@ =~= user_key_bundle.opks@.map_values(|o: keys::OneTimePreKey| (o.key.public_key, o.id)));
        assert(pq_s_opks_for_prekey@ =~= user_key_bundle.pq_opks@.map_values(
            |p: keys::PQOneTimePreKey| (keys::EncapsulationKey(p.key.public_key.0), p.id, p.sig)));
    }
    keys::PrekeyBundle {
        ik_dh_pub: user_key_bundle.identity.dh.public_key,
        ik_dsa_pub: keys::MLDSA65VerificationKey(user_key_bundle.identity.dsa.verification_key.0),
        spk_pub: user_key_bundle.spk.key.public_key,
        spk_sig: user_key_bundle.spk.sig,
        spk_id: user_key_bundle.spk.id,
        pqspk_pub: keys::EncapsulationKey(user_key_bundle.pqspk.key.public_key.0),
        pqspk_sig: user_key_bundle.pqspk.sig,
        pqspk_id: user_key_bundle.pqspk.id,
        opks: opks_for_prekey,
        pq_s_opks: pq_s_opks_for_prekey,
    }
}

/// Whether the signatures of a fetched bundle check out: the ML-KEM prekey
/// (the one-time one if present, else the signed one) and the signed
/// prekey, under the identity's verification key.
pub open spec fn bundle_verifies(fb: keys::FetchedBundle) -> bool {
    &&& match fb.pq_opk {
        Some((pk, _id, sig)) => spec_ml_dsa_65_verify(fb.ik_dsa_pub.0@, pk.0@, pq_opk_context(), sig@),
        None => spec_ml_dsa_65_verify(fb.ik_dsa_pub.0@, fb.pqspk_pub.unwrap().0@, pqspk_context(), fb.pqspk_sig@),
    }
    &&& spec_ml_dsa_65_verify(fb.ik_dsa_pub.0@, fb.spk_pub.0@, spk_context(), fb.spk_sig@)
}

/// Checks the signatures of a fetched bundle.
pub fn verify_pre_keys<'a>(fetched_bundle: &keys::FetchedBundle) -> (res: Result<(), &'a str>)
    requires
        fetched_bundle.pq_opk is None ==> fetched_bundle.pqspk_pub is Some,
    ensures
        res is Ok <==> bundle_verifies(*fetched_bundle),
        res matches Err(e) ==> e@ == "Could not verify the signature"@,
{
    proof {
        reveal_strlit("Sig(IK, EncodeEC(SPK), Z_SPK)");
        reveal_strlit("Sig(IK, EncodeKEM(PQSPK), ZPQSPK)");
        reveal_strlit("(PQOPK, id, Sig(IK, EncodeKEM(PQOPK), Z))");
    }
    let spk_sig = fetched_bundle.spk_sig;
    match &fetched_bundle.pq_opk {
        Some((pk, _id, sig)) => {
            let pq_opk_sig = *sig;
            match libcrux_ml_dsa_verify(&fetched_bundle.ik_dsa_pub, &pk.0, "(PQOPK, id, Sig(IK, EncodeKEM(PQOPK), Z))".as_bytes(), &pq_opk_sig) {
                Ok(()) => {},
                Err(e) => return Err(e),
            }
        },
        None => {
            let pqspk_pub = match &fetched_bundle.pqspk_pub {
                Some(p) => p,
                None => return Err("Missing last resort pqkem and pq opk"),
            };
            let last_resort_sig = fetched_bundle.pqspk_sig;
            match libcrux_ml_dsa_verify(&fetched_bundle.ik_dsa_pub, &pqspk_pub.0, "Sig(IK, EncodeKEM(PQSPK), ZPQSPK)".as_bytes(), &last_resort_sig) {
                Ok(()) => {},
                Err(e) => return Err(e),
            }
        },
    }
    libcrux_ml_dsa_verify(&fetched_bundle.ik_dsa_pub, &fetched_bundle.spk_pub.0, "Sig(IK, EncodeEC(SPK), Z_SPK)".as_bytes(), &spk_sig)
}


/// The X25519 output of a public and a private key (where it exists).
pub open spec fn dh(public_key: Seq<u8>, private_key: Seq<u8>) -> Seq<u8> {
    spec_x25519_derive(public_key, private_key).unwrap()
}

/// The ML-KEM public key an initiator encapsulates to: the one-time
/// prekey if the bundle has one, else the signed prekey.
pub open spec fn fb_pq_pub(fb: keys::FetchedBundle) -> Seq<u8> {
    match fb.pq_opk {
        Some((pk, _id, _sig)) => pk.0@,
        None => fb.pqspk_pub.unwrap().0@,
    }
}

/// Which of the responder's prekeys an initiator uses, in the order it
/// lists them.
pub open spec fn fb_ids(fb: keys::FetchedBundle) -> Seq<IDUseNameKey> {
    (match fb.pq_opk {
        Some((_pk, id, _sig)) => seq![IDUseNameKey::PQOPK { pqopk_id: id }],
        None => seq![IDUseNameKey::PQSPK { pqspk_id: fb.pqspk_id.unwrap() }],
    }) + seq![IDUseNameKey::SPK { spk_id: fb.spk_id }] + (match fb.opk {
        Some((_pk, id)) => seq![IDUseNameKey::OPK { opk_id: id }],
        None => Seq::<IDUseNameKey>::empty(),
    })
}

/// Whether every X25519 output the initiator needs exists.
pub open spec fn initiator_dhs_ok(ik_private: Seq<u8>, fb: keys::FetchedBundle, ek_private: Seq<u8>) -> bool {
    &&& spec_x25519_derive(fb.spk_pub.0@, ik_private) is Some
    &&& spec_x25519_derive(fb.ik_dh_pub.0@, ek_private) is Some
    &&& spec_x25519_derive(fb.spk_pub.0@, ek_private) is Some
    &&& fb.opk matches Some((pk, _id)) ==> spec_x25519_derive(pk.0@, ek_private) is Some
}

/// The initiator's 160 bytes of key agreement output: DH(SPK, IK),
/// DH(IK, EK), DH(SPK, EK), then DH(OPK, EK) and the KEM secret, or the KEM
/// secret and 32 zero bytes without a one-time prekey.
pub open spec fn initiator_cdh(ik_private: Seq<u8>, fb: keys::FetchedBundle, ek_private: Seq<u8>, ss: Seq<u8>) -> Seq<u8> {
    let base = dh(fb.spk_pub.0@, ik_private) + dh(fb.ik_dh_pub.0@, ek_private) + dh(fb.spk_pub.0@, ek_private);
    match fb.opk {
        Some((pk, _id)) => base + dh(pk.0@, ek_private) + ss,
        None => base + ss + zero_bytes(32),
    }
}

/// The info of the PQXDH secret derivation.
pub open spec fn pqxdh_info() -> Seq<u8> {
    "HACSS_CURVE25519_SHA256_ML-KEM-768".spec_bytes()
}

/// The plaintext of the initial message.
pub open spec fn initial_plaintext() -> Seq<u8> {
    "Initial for our post-PQXDH KL,AM".spec_bytes()
}

/// A bundle the initiator can use: without a one-time ML-KEM prekey, the
/// signed one and its number are there.
pub open spec fn bundle_usable(fb: keys::FetchedBundle) -> bool {
    fb.pq_opk is None ==> fb.pqspk_pub is Some && fb.pqspk_id is Some
}

/// The X25519 output of two keys; fails where it does not exist.
fn derive_array<'a>(public_key: keys::X25519PublicKey, private_key: keys::X25519PrivateKey) -> (res: Result<[u8; 32], &'a str>)
    ensures
        match res {
            Ok(d) => spec_x25519_derive(public_key.0@, private_key.0@) == Some(d@),
            Err(_) => spec_x25519_derive(public_key.0@, private_key.0@) is None,
        },
{
    libcrux_ecdh_x25519_derive(public_key, private_key)
}

/// The initiator's side of PQXDH before the secret is derived: a fresh
/// ephemeral key pair, an encapsulation to the responder's ML-KEM prekey,
/// the concatenated key agreement outputs, a fresh salt and the list of
/// prekeys used. Returns (salt, outputs, ephemeral key pair, KEM
/// ciphertext, prekeys used). Fails where an X25519 output does not exist.
pub fn initiator_create_salt_concat_dh(
    pqxdh_state: &PQXDHState,
    fetched_bundle: &keys::FetchedBundle,
) -> (res: Result<([u8; 32], [u8; 160], keys::X25519KeyPair, [u8; ML_KEM_768_CT_SIZE], Vec<IDUseNameKey>), String>)
    requires
        bundle_usable(*fetched_bundle),
    ensures
        match res {
            Ok((salt, cdh, ek, ct, ids)) => {
                let ik = pqxdh_state.keybundle.identity.dh.private_key.0@;
                &&& curve_pair_ok(ek)
                &&& ids@ == fb_ids(*fetched_bundle)
                &&& initiator_dhs_ok(ik, *fetched_bundle, ek.private_key.0@)
                &&& exists|r: Seq<u8>| r.len() == 32
                    && (#[trigger] spec_ml_kem_768_encapsulate(fb_pq_pub(*fetched_bundle), r)).0 == ct@
                    && cdh@ == initiator_cdh(ik, *fetched_bundle, ek.private_key.0@,
                        spec_ml_kem_768_encapsulate(fb_pq_pub(*fetched_bundle), r).1)
            },
            Err(_) => exists|k: Seq<u8>| !initiator_dhs_ok(pqxdh_state.keybundle.identity.dh.private_key.0@, *fetched_bundle, k),
        },
{
    let mut id_pk: Vec<IDUseNameKey> = Vec::new();
    let ek = gen_curve_key_pair();
    let pqpk: [u8; keys::ML_KEM_768_PK_SIZE] = match &fetched_bundle.pq_opk {
        Some((pk, id, _sig)) => {
            id_pk.push(IDUseNameKey::PQOPK { pqopk_id: *id });
            pk.0
        },
        None => {
            let pqspk_id = match fetched_bundle.pqspk_id {
                Some(i) => i,
                None => return Err("Missing id for the pqspk of the target".to_string()),
            };
            id_pk.push(IDUseNameKey::PQSPK { pqspk_id });
            match &fetched_bundle.pqspk_pub {
                Some(p) => p.0,
                None => return Err("Error".to_string()),
            }
        },
    };
    let (ct, ss) = libcrux_ml_kem_768_encaps(&pqpk);
    let ghost r = choose|r: Seq<u8>| r.len() == 32 && #[trigger] spec_ml_kem_768_encapsulate(pqpk@, r) == (ct@, ss@);
    let mut ss = ss;
    id_pk.push(IDUseNameKey::SPK { spk_id: fetched_bundle.spk_id });
    let spk_pub_target = fetched_bundle.spk_pub;
    let ik_self = pqxdh_state.keybundle.identity.dh.private_key;
    let mut dh1 = match derive_array(spk_pub_target, ik_self) {
        Ok(d) => d,
        Err(_) => {
            assert(!initiator_dhs_ok(pqxdh_state.keybundle.identity.dh.private_key.0@, *fetched_bundle, ek.private_key.0@));
            return Err("Could not derive dh1 from spk and ik".to_string());
        },
    };
    let ik_pub_target = fetched_bundle.ik_dh_pub;
    let ek_private_self = ek.private_key;
    let mut dh2 = match derive_array(ik_pub_target, ek_private_self) {
        Ok(d) => d,
        Err(_) => {
            assert(!initiator_dhs_ok(pqxdh_state.keybundle.identity.dh.private_key.0@, *fetched_bundle, ek.private_key.0@));
            return Err("Could not derive dh2 from ik and ek".to_string());
        },
    };
    let mut dh3 = match derive_array(spk_pub_target, ek_private_self) {
        Ok(d) => d,
        Err(_) => {
            assert(!initiator_dhs_ok(pqxdh_state.keybundle.identity.dh.private_key.0@, *fetched_bundle, ek.private_key.0@));
            return Err("Could not derive dh3 from spk and ek".to_string());
        },
    };
    let c12: [u8; 64] = concat(dh1, dh2);
    let c123: [u8; 96] = concat(c12, dh3);
    let concat_dh_final: [u8; 160] = match fetched_bundle.opk {
        Some((pk, id)) => {
            id_pk.push(IDUseNameKey::OPK { opk_id: id });
            let mut dh4 = match derive_array(pk, ek_private_self) {
                Ok(d) => d,
                Err(_) => {
            assert(!initiator_dhs_ok(pqxdh_state.keybundle.identity.dh.private_key.0@, *fetched_bundle, ek.private_key.0@));
            return Err("Could not derive dh4 from opk and ek".to_string());
        },
            };
            let c1234: [u8; 128] = concat(c123, dh4);
            let full: [u8; 160] = concat(c1234, ss);
            zeroize_bytes(&mut dh4);
            full
        },
        None => {
            let c123s: [u8; 128] = concat(c123, ss);
            let zeros = [0u8; 32];
            assert(zeros@ =~= zero_bytes(32));
            let full: [u8; 160] = concat(c123s, zeros);
            full
        },
    };
    let salt: [u8; 32] = make_randomness::<32>();
    zeroize_bytes(&mut dh1);
    zeroize_bytes(&mut dh2);
    zeroize_bytes(&mut dh3);
    zeroize_bytes(&mut ss);
    proof {
        assert(id_pk@ =~= fb_ids(*fetched_bundle));
        assert(pqpk@ == fb_pq_pub(*fetched_bundle));
    }
    Ok((salt, concat_dh_final, ek, ct, id_pk))
}


/// What the initiator's PQXDH secret is, for an ephemeral private key and
/// encapsulation randomness.
pub open spec fn initiator_sk(ik_private: Seq<u8>, fb: keys::FetchedBundle, ek_private: Seq<u8>, r: Seq<u8>, salt: Seq<u8>) -> Seq<u8> {
    spec_hkdf_sha256(32, salt, initiator_cdh(ik_private, fb, ek_private, spec_ml_kem_768_encapsulate(fb_pq_pub(fb), r).1), pqxdh_info())
}

/// The initiator's session after PQXDH with secret `sk`.
pub open spec fn initiator_session_made(old: SessionStore, new: SessionStore, target: UserId, sk: Seq<u8>, spk_pub: keys::X25519PublicKey, ad: [u8; 64]) -> bool {
    let s = new.view()[key_view(target)];
    &&& new.view() == old.view().insert(key_view(target), s)
    &&& fresh_session(s, ad)
    &&& fresh_initiator_tr(s.state, spec_expand_pqxdh(sk).subrange(0, 32), spec_expand_pqxdh(sk).subrange(32, 64), spk_pub)
}

/// The part of a successful initial message that rests on the ephemeral
/// private key and the encapsulation randomness, which stay with the
/// initiator.
pub open spec fn initial_message_secret(
    st: PQXDHState,
    fb: keys::FetchedBundle,
    target: UserId,
    msg: MessageType,
    old: SessionStore,
    new: SessionStore,
    ek_private: Seq<u8>,
    r: Seq<u8>,
) -> bool {
    match msg {
        MessageType::InitialMessage { ek, pq_ct, init_ct, init_ct_tag, init_ct_nonce, salt, ad, .. } => {
            let sk = initiator_sk(st.keybundle.identity.dh.private_key.0@, fb, ek_private, r, salt@);
            &&& spec_x25519_public(ek_private) == ek.0@
            &&& initiator_dhs_ok(st.keybundle.identity.dh.private_key.0@, fb, ek_private)
            &&& r.len() == 32
            &&& spec_ml_kem_768_encapsulate(fb_pq_pub(fb), r).0 == pq_ct@
            &&& spec_chacha20poly1305_encrypt(sk, init_ct_nonce@, ad@, initial_plaintext()) == (init_ct@, init_ct_tag@)
            &&& initiator_session_made(old, new, target, sk, fb.spk_pub, ad)
        },
        _ => false,
    }
}

/// What a successful initial message holds: the initiator's identity key,
/// an ephemeral public key, a KEM ciphertext to the responder's ML-KEM
/// prekey, the prekeys used, the initial plaintext encrypted under the PQXDH
/// secret with both identity keys as associated data, and the initiator's
/// name; and the initiator's session made from that same secret.
pub open spec fn initial_message_made(
    st: PQXDHState,
    fb: keys::FetchedBundle,
    initiator: UserId,
    target: UserId,
    msg: MessageType,
    old: SessionStore,
    new: SessionStore,
) -> bool {
    match msg {
        MessageType::InitialMessage {
            ik_pub, ek, pq_ct, pre_key_ids, init_ct, init_ct_tag, init_ct_nonce, salt, initiator_id, ad,
        } => {
            let ik = st.keybundle.identity.dh.private_key.0@;
            &&& ik_pub == st.keybundle.identity.dh.public_key
            &&& initiator_id == initiator
            &&& ad@ == st.keybundle.identity.dh.public_key.0@ + fb.ik_dh_pub.0@
            &&& pre_key_ids@ == fb_ids(fb)
            &&& exists|ek_private: Seq<u8>, r: Seq<u8>|
                #[trigger] initial_message_secret(st, fb, target, msg, old, new, ek_private, r)
        },
        _ => false,
    }
}

/// Making an initial message from a bundle fails only where the bundle's
/// signatures do not check, or where an X25519 output that the initiator
/// needs does not exist for some ephemeral or ratchet key it may draw.
pub open spec fn initial_message_refused(st: PQXDHState, fb: keys::FetchedBundle) -> bool {
    ||| !bundle_verifies(fb)
    ||| exists|k: Seq<u8>| !initiator_dhs_ok(st.keybundle.identity.dh.private_key.0@, fb, k)
    ||| exists|k: Seq<u8>| spec_x25519_derive(fb.spk_pub.0@, k) is None
}

/// The initial message to a responder, and the initiator's session with
/// it: the bundle's signatures are checked, PQXDH gives the secret, the
/// initial plaintext is encrypted under it with both identity keys as
/// associated data, and a session with `target_id` starts from it. Fails
/// (changing no session) when a signature does not check, an X25519 output
/// does not exist or the session cannot start.
pub fn make_initial_message_and_init_session<'a>(
    pqxdh_state: &PQXDHState,
    fetched_bundle: &keys::FetchedBundle,
    initiator_id: &UserId,
    target_id: &UserId,
    sessions: &mut SessionStore,
) -> (res: Result<MessageType, &'a str>)
    requires
        bundle_usable(*fetched_bundle),
        old(sessions).wf(),
    ensures
        final(sessions).wf(),
        res is Ok ==> bundle_verifies(*fetched_bundle),
        !bundle_verifies(*fetched_bundle) ==> (res matches Err(e) && e@ == "Could not verify the signature"@),
        res is Err ==> *final(sessions) == *old(sessions) && initial_message_refused(*pqxdh_state, *fetched_bundle),
        res matches Ok(msg) ==> initial_message_made(*pqxdh_state, *fetched_bundle, *initiator_id, *target_id,
            msg, *old(sessions), *final(sessions)),
{
    match verify_pre_keys(fetched_bundle) {
        Ok(()) => {},
        Err(e) => return Err(e),
    }
    let (salt, concat_dh_final, ek, ct, id_pk) = match initiator_create_salt_concat_dh(pqxdh_state, fetched_bundle) {
        Ok(t) => t,
        Err(_) => return Err("Couldn't make salt or concatted dh"),
    };
    let ghost ik = pqxdh_state.keybundle.identity.dh.private_key.0@;
    let ghost r = choose|r: Seq<u8>| r.len() == 32
        && (#[trigger] spec_ml_kem_768_encapsulate(fb_pq_pub(*fetched_bundle), r)).0 == ct@
        && concat_dh_final@ == initiator_cdh(ik, *fetched_bundle, ek.private_key.0@,
            spec_ml_kem_768_encapsulate(fb_pq_pub(*fetched_bundle), r).1);
    let mut concat_dh_final = concat_dh_final;
    proof {
        reveal_strlit("HACSS_CURVE25519_SHA256_ML-KEM-768");
        vstd::string::is_ascii_spec_bytes("HACSS_CURVE25519_SHA256_ML-KEM-768");
        reveal_strlit("Initial for our post-PQXDH KL,AM");
        vstd::string::is_ascii_spec_bytes("Initial for our post-PQXDH KL,AM");
    }
    let info: [u8; 34] = extract_chunk::<34>("HACSS_CURVE25519_SHA256_ML-KEM-768".as_bytes(), 0);
    assert(info@ =~= pqxdh_info());
    let sk = create_sk(salt, concat_dh_final, &info);
    let mut ek_private_bytes: [u8; 32] = ek.private_key.0;
    zeroize_bytes(&mut ek_private_bytes);
    zeroize_bytes(&mut concat_dh_final);
    let ad: [u8; 64] = concat(pqxdh_state.keybundle.identity.dh.public_key.0, fetched_bundle.ik_dh_pub.0);
    let plain: [u8; 32] = extract_chunk::<32>("Initial for our post-PQXDH KL,AM".as_bytes(), 0);
    assert(plain@ =~= initial_plaintext());
    let (init_ct, init_ct_tag, init_ct_nonce) = match libcrux_aead_encrypts_ad_initial_message(&sk, &ad, &plain) {
        Ok(t) => t,
        Err(_) => return Err("Could not make the initial ciphertext for the initial message"),
    };
    let init_message = MessageType::InitialMessage {
        ik_pub: pqxdh_state.keybundle.identity.dh.public_key,
        ek: ek.public_key,
        pq_ct: ct,
        pre_key_ids: id_pk,
        init_ct,
        init_ct_tag,
        init_ct_nonce,
        salt,
        initiator_id: clone_id(initiator_id),
        ad,
    };
    let mut ct_copy = ct;
    zeroize_bytes(&mut ct_copy);
    let mut init_ct_copy = init_ct;
    zeroize_bytes(&mut init_ct_copy);
    let mut init_ct_tag_copy = init_ct_tag;
    zeroize_bytes(&mut init_ct_tag_copy);
    match Session::new_initiator(target_id, keys::RootChainKey(sk), fetched_bundle.spk_pub, sessions, ad) {
        Ok(()) => {},
        Err(e) => return Err(e),
    }
    proof {
        assert(sk@ == initiator_sk(ik, *fetched_bundle, ek.private_key.0@, r, salt@));
        assert(initiator_session_made(*old(sessions), *sessions, *target_id,
            initiator_sk(ik, *fetched_bundle, ek.private_key.0@, r, salt@), fetched_bundle.spk_pub, ad));
        assert(spec_chacha20poly1305_encrypt(initiator_sk(ik, *fetched_bundle, ek.private_key.0@, r, salt@),
            init_ct_nonce@, ad@, initial_plaintext()) == (init_ct@, init_ct_tag@));
        assert(initial_message_secret(*pqxdh_state, *fetched_bundle, *target_id, init_message, *old(sessions),
            *sessions, ek.private_key.0@, r));
        assert(initial_message_made(*pqxdh_state, *fetched_bundle, *initiator_id, *target_id,
            init_message, *old(sessions), *sessions));
    }
    Ok(init_message)
}

} // verus!

verus! {

/// The index of the first entry with `id` among `ids`, if any.
pub open spec fn first_index(ids: Seq<u32>, id: u32) -> Option<int> {
    if exists|i: int| 0 <= i < ids.len() && ids[i] == id {
        Some(choose|i: int| 0 <= i < ids.len() && ids[i] == id && forall|j: int| 0 <= j < i ==> ids[j] != id)
    } else {
        None
    }
}

/// The identifiers of a list of one-time prekeys.
pub open spec fn opk_ids(opks: Seq<keys::OneTimePreKey>) -> Seq<u32> {
    opks.map_values(|k: keys::OneTimePreKey| k.id)
}

/// The identifiers of a list of ML-KEM one-time prekeys.
pub open spec fn pq_opk_ids(pq_opks: Seq<keys::PQOneTimePreKey>) -> Seq<u32> {
    pq_opks.map_values(|k: keys::PQOneTimePreKey| k.id)
}

/// What the responder has gathered while it reads the prekey identifiers of
/// an initial message: the ML-KEM decapsulation key (zeros until one is
/// named), the X25519 one-time private key taken out, the one-time prekeys
/// left, and whether a named ML-KEM one-time prekey was missing.
pub type PrekeyScan = (Seq<u8>, Option<keys::X25519PrivateKey>, Seq<keys::OneTimePreKey>, bool);

/// The responder's reading of one prekey identifier: an ML-KEM one-time
/// prekey is looked up (and kept), the ML-KEM signed prekey is taken when
/// its number matches, an X25519 one-time prekey is taken out of the
/// bundle, and the X25519 signed prekey changes nothing.
pub open spec fn scan_step(kb: keys::UserKeyBundle, st: PrekeyScan, key_id: IDUseNameKey) -> PrekeyScan {
    match key_id {
        IDUseNameKey::PQOPK { pqopk_id } => match first_index(pq_opk_ids(kb.pq_opks@), pqopk_id) {
            Some(i) => (kb.pq_opks@[i].key.secret_key.0@, st.1, st.2, st.3),
            None => (st.0, st.1, st.2, true),
        },
        IDUseNameKey::PQSPK { pqspk_id } => if kb.pqspk.id == pqspk_id {
            (kb.pqspk.key.secret_key.0@, st.1, st.2, st.3)
        } else {
            st
        },
        IDUseNameKey::OPK { opk_id } => match first_index(opk_ids(st.2), opk_id) {
            Some(i) => (st.0, Some(st.2[i].key.private_key), st.2.remove(i), st.3),
            None => st,
        },
        IDUseNameKey::SPK { .. } => st,
    }
}

/// The responder's reading of a list of prekey identifiers, in order.
pub open spec fn scan_ids(kb: keys::UserKeyBundle, ids: Seq<IDUseNameKey>) -> PrekeyScan
    decreases ids.len(),
{
    if ids.len() == 0 {
        (zero_bytes(keys::ML_KEM_768_SK_SIZE as nat), None, kb.opks@, false)
    } else {
        scan_step(kb, scan_ids(kb, ids.drop_last()), ids.last())
    }
}

/// Whether every X25519 output the responder needs exists.
pub open spec fn responder_dhs_ok(kb: keys::UserKeyBundle, ik_pub: Seq<u8>, ek_pub: Seq<u8>, opk: Option<keys::X25519PrivateKey>) -> bool {
    &&& spec_x25519_derive(ik_pub, kb.spk.key.private_key.0@) is Some
    &&& spec_x25519_derive(ek_pub, kb.identity.dh.private_key.0@) is Some
    &&& spec_x25519_derive(ek_pub, kb.spk.key.private_key.0@) is Some
    &&& opk matches Some(k) ==> spec_x25519_derive(ek_pub, k.0@) is Some
}

/// The responder's 160 bytes of key agreement output, in the initiator's
/// order: DH(IK, SPK), DH(EK, IK), DH(EK, SPK), then DH(EK, OPK) and the
/// KEM secret, or the KEM secret and 32 zero bytes without a one-time prekey.
pub open spec fn responder_cdh(kb: keys::UserKeyBundle, ik_pub: Seq<u8>, ek_pub: Seq<u8>, opk: Option<keys::X25519PrivateKey>, ss: Seq<u8>) -> Seq<u8> {
    let spk = kb.spk.key.private_key.0@;
    let base = dh(ik_pub, spk) + dh(ek_pub, kb.identity.dh.private_key.0@) + dh(ek_pub, spk);
    match opk {
        Some(k) => base + dh(ek_pub, k.0@) + ss,
        None => base + ss + zero_bytes(32),
    }
}

/// The responder's PQXDH secret for an initial message.
pub open spec fn responder_sk(kb: keys::UserKeyBundle, ik_pub: Seq<u8>, ek_pub: Seq<u8>, pq_ct: Seq<u8>, ids: Seq<IDUseNameKey>, salt: Seq<u8>) -> Seq<u8> {
    let scan = scan_ids(kb, ids);
    spec_hkdf_sha256(32, salt, responder_cdh(kb, ik_pub, ek_pub, scan.1, spec_ml_kem_768_decapsulate(scan.0, pq_ct)), pqxdh_info())
}

/// Whether the responder accepts an initial message: every named ML-KEM
/// one-time prekey is there, every X25519 output exists, and the initial
/// ciphertext opens under the derived secret with (initiator identity key,
/// own identity key) as associated data.
pub open spec fn responder_accepts(
    kb: keys::UserKeyBundle,
    ik_pub: Seq<u8>,
    ek_pub: Seq<u8>,
    pq_ct: Seq<u8>,
    ids: Seq<IDUseNameKey>,
    init_ct: Seq<u8>,
    init_ct_tag: Seq<u8>,
    init_ct_nonce: Seq<u8>,
    salt: Seq<u8>,
) -> bool {
    let scan = scan_ids(kb, ids);
    &&& !scan.3
    &&& responder_dhs_ok(kb, ik_pub, ek_pub, scan.1)
    &&& spec_chacha20poly1305_decrypt(responder_sk(kb, ik_pub, ek_pub, pq_ct, ids, salt), init_ct_nonce,
        ik_pub + kb.identity.dh.public_key.0@, init_ct, init_ct_tag) is Some
}

/// Two PQXDH states that differ at most in the one-time X25519 prekeys.
pub open spec fn same_but_opks(a: PQXDHState, b: PQXDHState) -> bool {
    &&& a.keybundle.identity == b.keybundle.identity
    &&& a.keybundle.spk == b.keybundle.spk
    &&& a.keybundle.spk_prev == b.keybundle.spk_prev
    &&& a.keybundle.pqspk == b.keybundle.pqspk
    &&& a.keybundle.pqspk_prev == b.keybundle.pqspk_prev
    &&& a.keybundle.pq_opks@ == b.keybundle.pq_opks@
    &&& a.spk_counter == b.spk_counter
    &&& a.pqspk_counter == b.pqspk_counter
    &&& a.opk_counter == b.opk_counter
    &&& a.pq_opk_counter == b.pq_opk_counter
}

/// The responder's session after PQXDH with secret `sk`.
pub open spec fn responder_session_made(old: SessionStore, new: SessionStore, initiator: UserId, sk: Seq<u8>, spk: keys::X25519KeyPair, ad: Seq<u8>) -> bool {
    let s = new.view()[key_view(initiator)];
    &&& new.view() == old.view().insert(key_view(initiator), s)
    &&& fresh_session(s, s.ad)
    &&& s.ad@ == ad
    &&& fresh_responder_tr(s.state, spec_expand_pqxdh(sk).subrange(0, 32), spec_expand_pqxdh(sk).subrange(32, 64), spk)
}

/// The index of the first one-time prekey with `id`, if any.
fn find_opk(opks: &Vec<keys::OneTimePreKey>, id: u32) -> (res: Option<usize>)
    ensures
        match res {
            Some(i) => i < opks.len() && first_index(opk_ids(opks@), id) == Some(i as int),
            None => first_index(opk_ids(opks@), id) is None,
        },
{
    let ghost ids = opk_ids(opks@);
    let mut j: usize = 0;
    while j < opks.len()
        invariant
            j <= opks.len(),
            ids == opk_ids(opks@),
            forall|k: int| 0 <= k < j ==> ids[k] != id,
        decreases opks.len() - j,
    {
        if opks[j].id == id {
            proof {
                assert(ids[j as int] == id);
                let c = choose|i: int| 0 <= i < ids.len() && ids[i] == id && forall|k: int| 0 <= k < i ==> ids[k] != id;
                assert(0 <= j < ids.len() && ids[j as int] == id && forall|k: int| 0 <= k < j ==> ids[k] != id);
                if c < j {
                    assert(ids[c] != id);
                } else if c > j {
                    assert(ids[j as int] != id);
                }
            }
            return Some(j);
        }
        j = j + 1;
    }
    None
}

/// The decapsulation key of the first ML-KEM one-time prekey with `id`.
fn find_pq_opk(pq_opks: &Vec<keys::PQOneTimePreKey>, id: u32) -> (res: Option<[u8; keys::ML_KEM_768_SK_SIZE]>)
    ensures
        match res {
            Some(k) => first_index(pq_opk_ids(pq_opks@), id) matches Some(i) && k@ == pq_opks@[i].key.secret_key.0@,
            None => first_index(pq_opk_ids(pq_opks@), id) is None,
        },
{
    let ghost ids = pq_opk_ids(pq_opks@);
    let mut j: usize = 0;
    while j < pq_opks.len()
        invariant
            j <= pq_opks.len(),
            ids == pq_opk_ids(pq_opks@),
            forall|k: int| 0 <= k < j ==> ids[k] != id,
        decreases pq_opks.len() - j,
    {
        if pq_opks[j].id == id {
            proof {
                assert(ids[j as int] == id);
                let c = choose|i: int| 0 <= i < ids.len() && ids[i] == id && forall|k: int| 0 <= k < i ==> ids[k] != id;
                assert(0 <= j < ids.len() && ids[j as int] == id && forall|k: int| 0 <= k < j ==> ids[k] != id);
                if c < j {
                    assert(ids[c] != id);
                } else if c > j {
                    assert(ids[j as int] != id);
                }
            }
            return Some(pq_opks[j].key.secret_key.0);
        }
        j = j + 1;
    }
    None
}

/// The responder's side of PQXDH: reads the prekey identifiers of an
/// initial message (taking the named X25519 one-time prekey out of the
/// bundle), recomputes the secret from its own private keys, opens the
/// initial ciphertext with (initiator identity key, own identity key) as
/// associated data, and on success starts the session with the initiator.
/// The associated data carried by the message is not read: the responder
/// rebuilds it. Fails where a named ML-KEM one-time prekey is missing, an
/// X25519 output does not exist or the ciphertext does not open; the
/// sessions are then unchanged.
#[verifier::rlimit(40)]
pub fn handle_receive_init_message_make_session_on_success<'a>(
    sessions: &mut SessionStore,
    pqxdh_state: &mut PQXDHState,
    ik_initiator_pub: keys::X25519PublicKey,
    ek_initiator: keys::X25519PublicKey,
    pq_ct: [u8; keys::ML_KEM_768_CT_SIZE],
    pre_key_ids: Vec<IDUseNameKey>,
    init_ct: [u8; 32],
    init_ct_tag: [u8; 16],
    init_ct_nonce: [u8; 12],
    salt: [u8; 32],
    initiator_id: UserId,
    ad: [u8; 64],
) -> (res: Result<(), &'a str>)
    requires
        old(sessions).wf(),
    ensures
        final(sessions).wf(),
        same_but_opks(*old(pqxdh_state), *final(pqxdh_state)),
        final(pqxdh_state).keybundle.opks@ == scan_ids(old(pqxdh_state).keybundle, pre_key_ids@).2,
        res is Ok <==> responder_accepts(old(pqxdh_state).keybundle, ik_initiator_pub.0@, ek_initiator.0@, pq_ct@,
            pre_key_ids@, init_ct@, init_ct_tag@, init_ct_nonce@, salt@),
        res is Ok ==> {
            let kb = old(pqxdh_state).keybundle;
            responder_session_made(*old(sessions), *final(sessions), initiator_id,
                responder_sk(kb, ik_initiator_pub.0@, ek_initiator.0@, pq_ct@, pre_key_ids@, salt@),
                kb.spk.key, ik_initiator_pub.0@ + kb.identity.dh.public_key.0@)
        },
        res is Err ==> *final(sessions) == *old(sessions),
{
    let ghost kb = pqxdh_state.keybundle;
    let mut pqpk: [u8; keys::ML_KEM_768_SK_SIZE] = [0u8; keys::ML_KEM_768_SK_SIZE];
    let mut opk: Option<keys::X25519PrivateKey> = None;
    let mut missing = false;
    proof {
        assert(pqpk@ =~= zero_bytes(keys::ML_KEM_768_SK_SIZE as nat));
        assert(pre_key_ids@.take(0) =~= Seq::<IDUseNameKey>::empty());
    }
    let mut i: usize = 0;
    while i < pre_key_ids.len()
        invariant
            i <= pre_key_ids.len(),
            same_but_opks(*old(pqxdh_state), *pqxdh_state),
            kb == old(pqxdh_state).keybundle,
            (pqpk@, opk, pqxdh_state.keybundle.opks@, missing) == scan_ids(kb, pre_key_ids@.take(i as int)),
        decreases pre_key_ids.len() - i,
    {
        let key_id = pre_key_ids[i];
        proof {
            assert(pre_key_ids@.take(i + 1).drop_last() =~= pre_key_ids@.take(i as int));
        }
        match key_id {
            IDUseNameKey::PQOPK { pqopk_id } => {
                match find_pq_opk(&pqxdh_state.keybundle.pq_opks, pqopk_id) {
                    Some(k) => { pqpk = k; },
                    None => { missing = true; },
                }
            },
            IDUseNameKey::PQSPK { pqspk_id } => {
                if pqxdh_state.keybundle.pqspk.id == pqspk_id {
                    pqpk = pqxdh_state.keybundle.pqspk.key.secret_key.0;
                }
            },
            IDUseNameKey::OPK { opk_id } => {
                match find_opk(&pqxdh_state.keybundle.opks, opk_id) {
                    Some(idx) => {
                        let extracted = pqxdh_state.keybundle.opks.remove(idx);
                        opk = Some(extracted.key.private_key);
                    },
                    None => {},
                }
            },
            IDUseNameKey::SPK { .. } => {},
        }
        i = i + 1;
    }
    proof {
        assert(pre_key_ids@.take(pre_key_ids@.len() as int) =~= pre_key_ids@);
    }
    let mut ss = libcrux_ml_kem_decapsulate(&pqpk, pq_ct);
    let spk_keypair = pqxdh_state.keybundle.spk.key;
    let spk_private = spk_keypair.private_key;
    let responder_ik = pqxdh_state.keybundle.identity.dh.private_key;
    let own_ik_pub = pqxdh_state.keybundle.identity.dh.public_key;
    let ad_own: [u8; 64] = concat(ik_initiator_pub.0, own_ik_pub.0);
    let ghost sk_spec = responder_sk(kb, ik_initiator_pub.0@, ek_initiator.0@, pq_ct@, pre_key_ids@, salt@);
    if missing {
        return Err("Could not find the pqopk used");
    }
    let mut dh1 = match derive_array(ik_initiator_pub, spk_private) {
        Ok(d) => d,
        Err(_) => return Err("Could not derive dh1 from spk and ik"),
    };
    let mut dh2 = match derive_array(ek_initiator, responder_ik) {
        Ok(d) => d,
        Err(_) => return Err("Could not derive dh2 from ik and ek"),
    };
    let mut dh3 = match derive_array(ek_initiator, spk_private) {
        Ok(d) => d,
        Err(_) => return Err("Could not derive dh3 from spk and ek"),
    };
    let c12: [u8; 64] = concat(dh1, dh2);
    let c123: [u8; 96] = concat(c12, dh3);
    let mut concat_dh_final: [u8; 160] = match opk {
        Some(k) => {
            let mut dh4 = match derive_array(ek_initiator, k) {
                Ok(d) => d,
                Err(_) => return Err("Could not derive dh4 from opk and ek"),
            };
            let c1234: [u8; 128] = concat(c123, dh4);
            let full: [u8; 160] = concat(c1234, ss);
            zeroize_bytes(&mut dh4);
            full
        },
        None => {
            let c123s: [u8; 128] = concat(c123, ss);
            let zeros = [0u8; 32];
            assert(zeros@ =~= zero_bytes(32));
            let full: [u8; 160] = concat(c123s, zeros);
            full
        },
    };
    proof {
        reveal_strlit("HACSS_CURVE25519_SHA256_ML-KEM-768");
        vstd::string::is_ascii_spec_bytes("HACSS_CURVE25519_SHA256_ML-KEM-768");
    }
    let info: [u8; 34] = extract_chunk::<34>("HACSS_CURVE25519_SHA256_ML-KEM-768".as_bytes(), 0);
    assert(info@ =~= pqxdh_info());
    let sk = create_sk(salt, concat_dh_final, &info);
    assert(sk@ == sk_spec);
    zeroize_bytes(&mut dh1);
    zeroize_bytes(&mut dh2);
    zeroize_bytes(&mut dh3);
    zeroize_bytes(&mut concat_dh_final);
    zeroize_bytes(&mut ss);
    match libcrux_aead_decrypts_ad_initial_message(&sk, &ad_own, &init_ct, &init_ct_tag, &init_ct_nonce) {
        Ok(_) => {},
        Err(_) => return Err("Could not decrypt"),
    }
    let mut init_ct_copy = init_ct;
    zeroize_bytes(&mut init_ct_copy);
    Session::new_responder(&initiator_id, keys::RootChainKey(sk), spk_keypair, sessions, ad_own);
    Ok(())
}


/// X25519 agreement: both ends of a Diffie-Hellman exchange get the same
/// output (or both none).
pub open spec fn x25519_agrees() -> bool {
    forall|a: Seq<u8>, b: Seq<u8>|
        #[trigger] spec_x25519_derive(spec_x25519_public(a), b) == spec_x25519_derive(spec_x25519_public(b), a)
}

/// ML-DSA accepts its own signatures: a signature that the signing key
/// drawn from `kr` made of a message under a context verifies under the
/// matching verification key.
pub open spec fn dsa_accepts_own() -> bool {
    forall|kr: Seq<u8>, m: Seq<u8>, ctx: Seq<u8>, r: Seq<u8>|
        kr.len() == 32 && r.len() == 32 && #[trigger] spec_ml_dsa_65_sign(spec_ml_dsa_65_key_pair(kr).0, m, ctx, r) is Some
            ==> spec_ml_dsa_65_verify(spec_ml_dsa_65_key_pair(kr).1, m, ctx,
                spec_ml_dsa_65_sign(spec_ml_dsa_65_key_pair(kr).0, m, ctx, r)->0)
}

/// The prekeys of a fresh key bundle pass the initiator's signature check:
/// a bundle handed out from its public part, after any number of earlier
/// fetches of its first one-time prekeys, verifies, where ML-DSA accepts
/// its own signatures.
pub proof fn law_fresh_bundle_verifies(kb: keys::UserKeyBundle, n: int, opks: Seq<(keys::X25519PublicKey, u32)>, fb: keys::FetchedBundle)
    requires
        dsa_accepts_own(),
        fresh_bundle(kb),
        0 <= n <= 20,
        fetched_from(keys::PrekeyBundleView {
            opks,
            pq_s_opks: public_bundle(kb).pq_s_opks.take(n),
            ..public_bundle(kb)
        }, fb),
    ensures
        bundle_verifies(fb),
{
    let sk = kb.identity.dsa.signing_key.0@;
    let vk = kb.identity.dsa.verification_key.0@;
    let kr = choose|r: Seq<u8>| r.len() == 32 && #[trigger] spec_ml_dsa_65_key_pair(r) == (sk, vk);
    let r1 = choose|r: Seq<u8>| r.len() == 32
        && #[trigger] spec_ml_dsa_65_sign(sk, kb.spk.key.public_key.0@, spk_context(), r) == Some(kb.spk.sig@);
    assert(spec_ml_dsa_65_sign(spec_ml_dsa_65_key_pair(kr).0, kb.spk.key.public_key.0@, spk_context(), r1)
        == Some(kb.spk.sig@));
    if n > 0 {
        let i = n - 1;
        let p = kb.pq_opks@[i];
        assert(public_bundle(kb).pq_s_opks.take(n).last() == (keys::EncapsulationKey(p.key.public_key.0), p.id, p.sig));
        let r2 = choose|r: Seq<u8>| r.len() == 32
            && #[trigger] spec_ml_dsa_65_sign(sk, p.key.public_key.0@, pq_opk_context(), r) == Some(p.sig@);
        assert(spec_ml_dsa_65_sign(spec_ml_dsa_65_key_pair(kr).0, p.key.public_key.0@, pq_opk_context(), r2)
            == Some(p.sig@));
    } else {
        let r2 = choose|r: Seq<u8>| r.len() == 32
            && #[trigger] spec_ml_dsa_65_sign(sk, kb.pqspk.key.public_key.0@, pqspk_context(), r) == Some(kb.pqspk.sig@);
        assert(spec_ml_dsa_65_sign(spec_ml_dsa_65_key_pair(kr).0, kb.pqspk.key.public_key.0@, pqspk_context(), r2)
            == Some(kb.pqspk.sig@));
    }
}

/// The ML-KEM one-time prekeys added later pass the initiator's signature
/// check as well: each signature, made by the identity signing key drawn
/// from `kr`, verifies under the matching verification key and the context
/// that `verify_pre_keys` checks, where ML-DSA accepts its own signatures.
pub proof fn law_added_pq_opks_verify(
    pq_opks: Seq<keys::PQOneTimePreKey>,
    start: int,
    first_id: int,
    kr: Seq<u8>,
    pubs: Seq<(keys::EncapsulationKey, u32, [u8; keys::MLDSA_65_SIGNATURE_KEY_SIZE])>,
    i: int,
)
    requires
        dsa_accepts_own(),
        kr.len() == 32,
        added_pq_opks(pq_opks, start, first_id, spec_ml_dsa_65_key_pair(kr).0, pubs),
        0 <= i < pubs.len(),
    ensures
        spec_ml_dsa_65_verify(spec_ml_dsa_65_key_pair(kr).1, pubs[i].0.0@, pq_opk_context(), pubs[i].2@),
{
    let sk = spec_ml_dsa_65_key_pair(kr).0;
    let p = pq_opks[start + i];
    let r = choose|r: Seq<u8>| r.len() == 32
        && #[trigger] spec_ml_dsa_65_sign(sk, p.key.public_key.0@, pq_opk_context(), r) == Some(p.sig@);
    assert(spec_ml_dsa_65_sign(sk, p.key.public_key.0@, pq_opk_context(), r) is Some);
}

/// ML-KEM correctness for a key pair: decapsulation recovers the secret
/// that an encapsulation to the public key produced.
pub open spec fn kem_recovers(kp: keys::PQKeyPair) -> bool {
    forall|r: Seq<u8>|
        #[trigger] spec_ml_kem_768_decapsulate(kp.secret_key.0@, spec_ml_kem_768_encapsulate(kp.public_key.0@, r).0)
            == spec_ml_kem_768_encapsulate(kp.public_key.0@, r).1
}

/// AEAD correctness: a ciphertext opens, under the key, nonce and
/// associated data it was made with, to its plaintext.
pub open spec fn aead_opens() -> bool {
    forall|k: Seq<u8>, n: Seq<u8>, ad: Seq<u8>, p: Seq<u8>|
        #![trigger spec_chacha20poly1305_encrypt(k, n, ad, p)]
        spec_chacha20poly1305_decrypt(k, n, ad, spec_chacha20poly1305_encrypt(k, n, ad, p).0,
            spec_chacha20poly1305_encrypt(k, n, ad, p).1) == Some(p)
}

/// A fetched bundle offers the responder's own keys: its identity and
/// signed prekey, an ML-KEM prekey of the responder's (the first one-time
/// prekey with its number, or the signed one) whose decapsulation works,
/// and, if any, the first X25519 one-time prekey with its number.
pub open spec fn offered_by(fb: keys::FetchedBundle, kb: keys::UserKeyBundle) -> bool {
    &&& fb.ik_dh_pub == kb.identity.dh.public_key
    &&& fb.spk_pub == kb.spk.key.public_key
    &&& curve_pair_ok(kb.identity.dh)
    &&& curve_pair_ok(kb.spk.key)
    &&& match fb.pq_opk {
        Some((pk, id, _sig)) => first_index(pq_opk_ids(kb.pq_opks@), id) matches Some(i)
            && kb.pq_opks@[i].key.public_key == pk && kem_recovers(kb.pq_opks@[i].key),
        None => fb.pqspk_id == Some(kb.pqspk.id) && fb.pqspk_pub == Some(kb.pqspk.key.public_key)
            && kem_recovers(kb.pqspk.key),
    }
    &&& fb.opk matches Some((pk, id)) ==> first_index(opk_ids(kb.opks@), id) matches Some(i)
        && kb.opks@[i].key.public_key == pk && curve_pair_ok(kb.opks@[i].key)
}

/// The responder reads the prekey identifiers of an initiator's message
/// made from a bundle it offered: it finds the ML-KEM decapsulation key
/// and the X25519 one-time key that the initiator used.
#[verifier::rlimit(60)]
proof fn lemma_scan_offered(fb: keys::FetchedBundle, kb: keys::UserKeyBundle)
    requires
        bundle_usable(fb),
        offered_by(fb, kb),
    ensures
        !scan_ids(kb, fb_ids(fb)).3,
        match fb.pq_opk {
            Some((_pk, id, _sig)) => first_index(pq_opk_ids(kb.pq_opks@), id) matches Some(i)
                && scan_ids(kb, fb_ids(fb)).0 == kb.pq_opks@[i].key.secret_key.0@,
            None => scan_ids(kb, fb_ids(fb)).0 == kb.pqspk.key.secret_key.0@,
        },
        match fb.opk {
            Some((_pk, id)) => first_index(opk_ids(kb.opks@), id) matches Some(i)
                && scan_ids(kb, fb_ids(fb)).1 == Some(kb.opks@[i].key.private_key),
            None => scan_ids(kb, fb_ids(fb)).1 is None,
        },
{
    let ids = fb_ids(fb);
    let first = match fb.pq_opk {
        Some((_pk, id, _sig)) => IDUseNameKey::PQOPK { pqopk_id: id },
        None => IDUseNameKey::PQSPK { pqspk_id: fb.pqspk_id.unwrap() },
    };
    let two = seq![first, IDUseNameKey::SPK { spk_id: fb.spk_id }];
    assert(two.drop_last() =~= seq![first]);
    assert(seq![first].drop_last() =~= Seq::<IDUseNameKey>::empty());
    assert(scan_ids(kb, Seq::<IDUseNameKey>::empty()).2 == kb.opks@);
    assert(scan_ids(kb, seq![first]) == scan_step(kb, scan_ids(kb, Seq::<IDUseNameKey>::empty()), first));
    assert(scan_ids(kb, seq![first]).2 == kb.opks@);
    assert(!scan_ids(kb, seq![first]).3);
    assert(scan_ids(kb, two) == scan_step(kb, scan_ids(kb, seq![first]), two.last()));
    match fb.opk {
        Some((_pk, id)) => {
            assert(ids =~= two.push(IDUseNameKey::OPK { opk_id: id }));
            assert(ids.drop_last() =~= two);
            assert(scan_ids(kb, ids) == scan_step(kb, scan_ids(kb, two), ids.last()));
            assert(ids.last() == IDUseNameKey::OPK { opk_id: id });
            assert(scan_ids(kb, two).2 == kb.opks@);
            assert(!scan_ids(kb, two).3);
        },
        None => {
            assert(ids =~= two);
        },
    }
}

/// Key agreement: for an initial message that an initiator made from a
/// bundle the responder offered, the responder accepts the message and
/// derives the very secret from which the initiator's session started,
/// where X25519 agrees, ML-KEM decapsulation recovers the secret and
/// ChaCha20-Poly1305 ciphertexts open.
pub proof fn law_pqxdh_agreement(
    st: PQXDHState,
    fb: keys::FetchedBundle,
    initiator: UserId,
    target: UserId,
    msg: MessageType,
    old: SessionStore,
    new: SessionStore,
    kb: keys::UserKeyBundle,
)
    requires
        initial_message_made(st, fb, initiator, target, msg, old, new),
        curve_pair_ok(st.keybundle.identity.dh),
        bundle_usable(fb),
        offered_by(fb, kb),
        x25519_agrees(),
        aead_opens(),
    ensures
        msg matches MessageType::InitialMessage {
            ik_pub, ek, pq_ct, pre_key_ids, init_ct, init_ct_tag, init_ct_nonce, salt, ad, ..
        } ==> {
            &&& responder_accepts(kb, ik_pub.0@, ek.0@, pq_ct@, pre_key_ids@, init_ct@, init_ct_tag@, init_ct_nonce@, salt@)
            &&& initiator_session_made(old, new, target, responder_sk(kb, ik_pub.0@, ek.0@, pq_ct@, pre_key_ids@, salt@),
                fb.spk_pub, ad)
        },
{
    match msg {
        MessageType::InitialMessage { ik_pub, ek, pq_ct, pre_key_ids, init_ct, init_ct_tag, init_ct_nonce, salt, ad, .. } => {
            let (ek_private, r) = choose|ek_private: Seq<u8>, r: Seq<u8>|
                #[trigger] initial_message_secret(st, fb, target, msg, old, new, ek_private, r);
            let ik = st.keybundle.identity.dh.private_key.0@;
            let spk = kb.spk.key.private_key.0@;
            let kik = kb.identity.dh.private_key.0@;
            lemma_scan_offered(fb, kb);
            let scan = scan_ids(kb, fb_ids(fb));
            assert(pre_key_ids@ == fb_ids(fb));
            // the four Diffie-Hellman outputs agree
            assert(spec_x25519_derive(spec_x25519_public(spk), ik) == spec_x25519_derive(spec_x25519_public(ik), spk));
            assert(spec_x25519_derive(spec_x25519_public(kik), ek_private) == spec_x25519_derive(spec_x25519_public(ek_private), kik));
            assert(spec_x25519_derive(spec_x25519_public(spk), ek_private) == spec_x25519_derive(spec_x25519_public(ek_private), spk));
            // the KEM secret agrees
            let ct_ss = spec_ml_kem_768_encapsulate(fb_pq_pub(fb), r);
            match fb.pq_opk {
                Some((_pk, id, _sig)) => {
                    let i = first_index(pq_opk_ids(kb.pq_opks@), id).unwrap();
                    assert(spec_ml_kem_768_decapsulate(kb.pq_opks@[i].key.secret_key.0@,
                        spec_ml_kem_768_encapsulate(kb.pq_opks@[i].key.public_key.0@, r).0)
                        == spec_ml_kem_768_encapsulate(kb.pq_opks@[i].key.public_key.0@, r).1);
                },
                None => {
                    assert(spec_ml_kem_768_decapsulate(kb.pqspk.key.secret_key.0@,
                        spec_ml_kem_768_encapsulate(kb.pqspk.key.public_key.0@, r).0)
                        == spec_ml_kem_768_encapsulate(kb.pqspk.key.public_key.0@, r).1);
                },
            }
            assert(spec_ml_kem_768_decapsulate(scan.0, pq_ct@) == ct_ss.1);
            match fb.opk {
                Some((_pk, id)) => {
                    let i = first_index(opk_ids(kb.opks@), id).unwrap();
                    let o = kb.opks@[i].key.private_key.0@;
                    assert(spec_x25519_derive(spec_x25519_public(o), ek_private)
                        == spec_x25519_derive(spec_x25519_public(ek_private), o));
                },
                None => {},
            }
            assert(responder_cdh(kb, ik_pub.0@, ek.0@, scan.1, spec_ml_kem_768_decapsulate(scan.0, pq_ct@))
                == initiator_cdh(ik, fb, ek_private, ct_ss.1));
            assert(responder_sk(kb, ik_pub.0@, ek.0@, pq_ct@, pre_key_ids@, salt@) == initiator_sk(ik, fb, ek_private, r, salt@));
            let sk = initiator_sk(ik, fb, ek_private, r, salt@);
            assert(ad@ == ik_pub.0@ + kb.identity.dh.public_key.0@);
            assert(spec_chacha20poly1305_encrypt(sk, init_ct_nonce@, ad@, initial_plaintext()) == (init_ct@, init_ct_tag@));
        },
        _ => {},
    }
}


/// The first message of a session started with PQXDH arrives: where the
/// initiator made an initial message from a bundle the responder offered
/// and the responder started its session from that message, the message
/// the initiator's session encrypts first is the one the responder's
/// session decrypts, under the same associated data, where X25519 agrees,
/// ML-KEM decapsulation recovers the secret and ChaCha20-Poly1305
/// ciphertexts open. (The text "empty" stands for the empty message.)
pub proof fn law_first_session_message<'a>(
    st: PQXDHState,
    fb: keys::FetchedBundle,
    initiator: UserId,
    target: UserId,
    msg: MessageType,
    a_old: SessionStore,
    a_new: SessionStore,
    kb: keys::UserKeyBundle,
    b_old: SessionStore,
    b_new: SessionStore,
    pt: &str,
    a1: crate::triple_ratchet::triple_ratchet_impl::TripleRatchetState,
    sres: Result<(crate::util::messages::TRHeader, Vec<u8>), &'a str>,
    b1: crate::triple_ratchet::triple_ratchet_impl::TripleRatchetState,
    rres: Result<String, &'a str>,
)
    requires
        initial_message_made(st, fb, initiator, target, msg, a_old, a_new),
        curve_pair_ok(st.keybundle.identity.dh),
        bundle_usable(fb),
        offered_by(fb, kb),
        x25519_agrees(),
        aead_opens(),
        msg matches MessageType::InitialMessage { ik_pub, ek, pq_ct, pre_key_ids, salt, .. } ==> responder_session_made(
            b_old, b_new, initiator, responder_sk(kb, ik_pub.0@, ek.0@, pq_ct@, pre_key_ids@, salt@), kb.spk.key,
            ik_pub.0@ + kb.identity.dh.public_key.0@),
        pt@ != "empty"@,
        crate::triple_ratchet::triple_ratchet_impl::encrypt_rel(a_new.view()[key_view(target)].state, pt@,
            a_new.view()[key_view(target)].ad@, a1, sres),
        sres matches Ok((h, ct)) ==> crate::triple_ratchet::triple_ratchet_impl::decrypt_rel(
            b_new.view()[key_view(initiator)].state, h, ct@, b_new.view()[key_view(initiator)].ad@, b1, rres),
    ensures
        a_new.view()[key_view(target)].ad@ == b_new.view()[key_view(initiator)].ad@,
        sres is Ok,
        rres matches Ok(t) && t@ == pt@,
{
    law_pqxdh_agreement(st, fb, initiator, target, msg, a_old, a_new, kb);
    match msg {
        MessageType::InitialMessage { ik_pub, ek, pq_ct, pre_key_ids, salt, ad, .. } => {
            let sk = responder_sk(kb, ik_pub.0@, ek.0@, pq_ct@, pre_key_ids@, salt@);
            let sa = a_new.view()[key_view(target)];
            let sb = b_new.view()[key_view(initiator)];
            let spk = kb.spk.key;
            assert(fb.spk_pub == spk.public_key);
            let a_priv = sa.state.ec_state.dhs.private_key.0@;
            assert(spec_x25519_derive(spec_x25519_public(a_priv), spk.private_key.0@)
                == spec_x25519_derive(spec_x25519_public(spk.private_key.0@), a_priv));
            assert(sa.ad@ == sb.ad@);
            crate::triple_ratchet::triple_ratchet_impl::law_first_message_delivered_tr(
                spec_expand_pqxdh(sk).subrange(0, 32), spec_expand_pqxdh(sk).subrange(32, 64), spk,
                sa.state, pt, sa.ad@, a1, sres, sb.state, b1, rres);
        },
        _ => {},
    }
}

} // verus!
