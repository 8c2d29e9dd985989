use vstd::prelude::*;

verus! {

pub const X25519_KEY_SIZE: usize = 32;
pub const ML_KEM_768_PK_SIZE: usize = 1184;
pub const ML_KEM_768_SK_SIZE: usize = 2400;
pub const MLDSA_65_SIGNATURE_KEY_SIZE: usize = 3309;
pub const ML_KEM_768_CT_SIZE: usize = 1088;

/// X25519 private key.
#[derive(Clone, Copy, PartialEq, Debug, Default)]
pub struct X25519PrivateKey(pub [u8; 32]);

/// X25519 public key.
#[derive(Debug, Clone, Copy, PartialEq, Eq, Hash, Default)]
pub struct X25519PublicKey(pub [u8; 32]);

/// Root key of a ratchet.
#[derive(Debug, PartialEq, Copy, Clone)]
pub struct RootChainKey(pub [u8; 32]);

/// Sending or receiving chain key.
#[derive(Debug, Copy, Clone)]
pub struct ChainKey(pub [u8; 32]);

/// Message key.
#[derive(Copy, Clone, Debug)]
pub struct MessageKey(pub [u8; 32]);

/// ML-DSA-65 signing key.
#[derive(Debug, Clone)]
pub struct MLDSA65SigningKey(pub [u8; 4032]);

/// ML-DSA-65 verification key.
#[derive(Debug, Clone, Copy, PartialEq)]
pub struct MLDSA65VerificationKey(pub [u8; 1952]);

/// X25519 key pair; the long-term identity pair of a user is one of these.
#[derive(Clone, Copy, PartialEq, Debug, Default)]
pub struct X25519KeyPair {
    pub private_key: X25519PrivateKey,
    pub public_key: X25519PublicKey,
}

/// Output key of the sparse continuous key agreement, tagged with its epoch.
#[derive(Debug)]
pub struct SCKAOutputKey {
    pub epoch: u64,
    pub key: [u8; 32],
}

/// ML-KEM-768 public key.
#[derive(Clone, Copy, Debug, PartialEq)]
pub struct EncapsulationKey(pub [u8; ML_KEM_768_PK_SIZE]);

/// ML-KEM-768 secret key.
#[derive(Clone)]
pub struct DecapsulationKey(pub [u8; ML_KEM_768_SK_SIZE]);

/// ML-KEM-768 key pair.
#[derive(Clone)]
pub struct PQKeyPair {
    pub public_key: EncapsulationKey,
    pub secret_key: DecapsulationKey,
}

/// Long-term ML-DSA-65 key pair that signs the prekeys.
pub struct IdentityDSAKey {
    pub signing_key: MLDSA65SigningKey,
    pub verification_key: MLDSA65VerificationKey,
}

/// Long-term identity: a Diffie-Hellman pair and a signing pair.
pub struct IdentityKeys {
    pub dh: X25519KeyPair,
    pub dsa: IdentityDSAKey,
}

/// X25519 signed prekey.
#[derive(Clone)]
pub struct SignedPreKey {
    pub id: u32,
    pub key: X25519KeyPair,
    pub sig: [u8; MLDSA_65_SIGNATURE_KEY_SIZE],
}

/// ML-KEM-768 signed prekey.
#[derive(Clone)]
pub struct PQSignedPreKey {
    pub id: u32,
    pub key: PQKeyPair,
    pub sig: [u8; MLDSA_65_SIGNATURE_KEY_SIZE],
}

/// X25519 one-time prekey, consumed by one session initiation.
#[derive(Clone)]
pub struct OneTimePreKey {
    pub id: u32,
    pub key: X25519KeyPair,
}

/// Signed ML-KEM-768 one-time prekey, consumed by one encapsulation.
#[derive(Clone)]
pub struct PQOneTimePreKey {
    pub id: u32,
    pub key: PQKeyPair,
    pub sig: [u8; MLDSA_65_SIGNATURE_KEY_SIZE],
}

/// Public prekey bundle uploaded to the server; holds no private key.
#[derive(Clone, Debug)]
pub struct PrekeyBundle {
    pub ik_dh_pub: X25519PublicKey,
    pub ik_dsa_pub: MLDSA65VerificationKey,
    pub spk_pub: X25519PublicKey,
    pub spk_sig: [u8; MLDSA_65_SIGNATURE_KEY_SIZE],
    pub spk_id: u32,
    pub pqspk_pub: EncapsulationKey,
    pub pqspk_sig: [u8; MLDSA_65_SIGNATURE_KEY_SIZE],
    pub pqspk_id: u32,
    pub opks: Vec<(X25519PublicKey, u32)>,
    pub pq_s_opks: Vec<(EncapsulationKey, u32, [u8; MLDSA_65_SIGNATURE_KEY_SIZE])>,
}

/// A prekey bundle as values: its fixed keys and the one-time prekeys it
/// still offers.
pub struct PrekeyBundleView {
    pub ik_dh_pub: X25519PublicKey,
    pub ik_dsa_pub: MLDSA65VerificationKey,
    pub spk_pub: X25519PublicKey,
    pub spk_sig: [u8; MLDSA_65_SIGNATURE_KEY_SIZE],
    pub spk_id: u32,
    pub pqspk_pub: EncapsulationKey,
    pub pqspk_sig: [u8; MLDSA_65_SIGNATURE_KEY_SIZE],
    pub pqspk_id: u32,
    pub opks: Seq<(X25519PublicKey, u32)>,
    pub pq_s_opks: Seq<(EncapsulationKey, u32, [u8; MLDSA_65_SIGNATURE_KEY_SIZE])>,
}

impl PrekeyBundle {
    pub open spec fn view(&self) -> PrekeyBundleView {
        PrekeyBundleView {
            ik_dh_pub: self.ik_dh_pub,
            ik_dsa_pub: self.ik_dsa_pub,
            spk_pub: self.spk_pub,
            spk_sig: self.spk_sig,
            spk_id: self.spk_id,
            pqspk_pub: self.pqspk_pub,
            pqspk_sig: self.pqspk_sig,
            pqspk_id: self.pqspk_id,
            opks: self.opks@,
            pq_s_opks: self.pq_s_opks@,
        }
    }
}

/// Prekey bundle handed by the server to a session initiator.
#[derive(Debug, PartialEq)]
pub struct FetchedBundle {
    pub ik_dh_pub: X25519PublicKey,
    pub ik_dsa_pub: MLDSA65VerificationKey,
    pub spk_pub: X25519PublicKey,
    pub spk_sig: [u8; MLDSA_65_SIGNATURE_KEY_SIZE],
    pub spk_id: u32,
    pub pqspk_pub: Option<EncapsulationKey>,
    pub pqspk_sig: [u8; MLDSA_65_SIGNATURE_KEY_SIZE],
    pub pqspk_id: Option<u32>,
    pub opk: Option<(X25519PublicKey, u32)>,
    pub pq_opk: Option<(EncapsulationKey, u32, [u8; MLDSA_65_SIGNATURE_KEY_SIZE])>,
}

/// Everything a user holds locally.
pub struct UserKeyBundle {
    pub identity: IdentityKeys,
    pub spk: SignedPreKey,
    pub spk_prev: Option<SignedPreKey>,
    pub pqspk: PQSignedPreKey,
    pub pqspk_prev: Option<PQSignedPreKey>,
    pub opks: Vec<OneTimePreKey>,
    pub pq_opks: Vec<PQOneTimePreKey>,
}

} // verus!
