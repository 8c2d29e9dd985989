use vstd::prelude::*;
use crate::util::constants::{PROTOCOL_INFO, MESSAGE_KEY_SIZE, NONCE_SIZE, TAG_SIZE, DECAPSULATION_KEY_SIZE, HEADER_SIZE, EK_VECTOR_SIZE, CT1_SIZE, CT2_SIZE, ENCAPS_SECRET_SIZE};
use crate::util::helper_func::{extract_chunk, make_randomness};
use crate::util::keys;
use vstd::string::StringSliceAdditionalSpecFns;
use libcrux_aead::chacha20poly1305::{Key as ChaChaKey, Nonce as ChaChaNonce, Tag as ChaChaTag};

verus! {

broadcast use vstd::array::group_array_axioms;

// ---------------------------------------------------------------------------
// Names for what the outside cryptographic functions compute. Each is a
// function of its arguments alone; nothing here says which value it is.
// ---------------------------------------------------------------------------

/// `libcrux_hkdf::hkdf` with SHA2-256, writing `okm_len` bytes.
pub uninterp spec fn spec_hkdf_sha256(okm_len: nat, salt: Seq<u8>, ikm: Seq<u8>, info: Seq<u8>) -> Seq<u8>;

/// `libcrux_hmac::hmac_sha2_256`.
pub uninterp spec fn spec_hmac_sha256(key: Seq<u8>, data: Seq<u8>) -> Seq<u8>;

/// `libcrux_sha3::sha256`.
pub uninterp spec fn spec_sha3_256(data: Seq<u8>) -> Seq<u8>;

/// `libcrux_ecdh::x25519_derive` on a public key and a (clamped) private key;
/// `None` where the outside function returns an error.
pub uninterp spec fn spec_x25519_derive(public_key: Seq<u8>, private_key: Seq<u8>) -> Option<Seq<u8>>;

/// `libcrux_ml_dsa::ml_dsa_65::generate_key_pair`: (signing key, verification key).
pub uninterp spec fn spec_ml_dsa_65_key_pair(randomness: Seq<u8>) -> (Seq<u8>, Seq<u8>);

/// `libcrux_ml_dsa::ml_dsa_65::sign`; `None` where it returns an error.
pub uninterp spec fn spec_ml_dsa_65_sign(signing_key: Seq<u8>, message: Seq<u8>, context: Seq<u8>, randomness: Seq<u8>) -> Option<Seq<u8>>;

/// `libcrux_ml_dsa::ml_dsa_65::verify`; true where it returns `Ok`.
pub uninterp spec fn spec_ml_dsa_65_verify(verification_key: Seq<u8>, message: Seq<u8>, context: Seq<u8>, signature: Seq<u8>) -> bool;

/// `libcrux_ml_kem::mlkem768::generate_key_pair`: (private key, public key).
pub uninterp spec fn spec_ml_kem_768_key_pair(randomness: Seq<u8>) -> (Seq<u8>, Seq<u8>);

/// `libcrux_ml_kem::mlkem768::encapsulate`: (ciphertext, shared secret).
pub uninterp spec fn spec_ml_kem_768_encapsulate(public_key: Seq<u8>, randomness: Seq<u8>) -> (Seq<u8>, Seq<u8>);

/// `libcrux_ml_kem::mlkem768::decapsulate`.
pub uninterp spec fn spec_ml_kem_768_decapsulate(private_key: Seq<u8>, ciphertext: Seq<u8>) -> Seq<u8>;

/// The bytes of `libcrux_ml_kem::mlkem768::incremental::KeyPairCompressedBytes::from_seed`.
pub uninterp spec fn spec_ml_kem_768_compressed_key_pair(seed: Seq<u8>) -> Seq<u8>;

/// `libcrux_ml_kem::mlkem768::incremental::validate_pk_bytes`; true where it returns `Ok`.
pub uninterp spec fn spec_ml_kem_768_validate_pk(pk1: Seq<u8>, pk2: Seq<u8>) -> bool;

/// `libcrux_ml_kem::mlkem768::incremental::encapsulate1`: (state, first ciphertext, shared secret).
pub uninterp spec fn spec_ml_kem_768_encapsulate1(pk1: Seq<u8>, randomness: Seq<u8>) -> (Seq<u8>, Seq<u8>, Seq<u8>);

/// `libcrux_ml_kem::mlkem768::incremental::encapsulate2`.
pub uninterp spec fn spec_ml_kem_768_encapsulate2(state: Seq<u8>, pk2: Seq<u8>) -> Seq<u8>;

/// `libcrux_ml_kem::mlkem768::incremental::decapsulate_compressed_key`.
pub uninterp spec fn spec_ml_kem_768_decapsulate_compressed(private_key: Seq<u8>, ct1: Seq<u8>, ct2: Seq<u8>) -> Seq<u8>;

/// `encrypt` of `libcrux_aead::chacha20poly1305::Key`: (ciphertext, tag).
pub uninterp spec fn spec_chacha20poly1305_encrypt(key: Seq<u8>, nonce: Seq<u8>, aad: Seq<u8>, plaintext: Seq<u8>) -> (Seq<u8>, Seq<u8>);

/// `decrypt` of `libcrux_aead::chacha20poly1305::Key`; `None` where it returns an error.
pub uninterp spec fn spec_chacha20poly1305_decrypt(key: Seq<u8>, nonce: Seq<u8>, aad: Seq<u8>, ciphertext: Seq<u8>, tag: Seq<u8>) -> Option<Seq<u8>>;

// ---------------------------------------------------------------------------
// Calls into the outside crates.
// ---------------------------------------------------------------------------

/// Calls `libcrux_hkdf::hkdf(Algorithm::Sha256, ..)` into a fresh buffer of
/// `okm_len` bytes. Claims that the output has that length and is the named
/// HKDF value of the arguments. The outside function refuses outputs longer
/// than 255 hash lengths and arguments longer than `u32::MAX`: `requires`
/// leaves those out.
#[verifier::external_body]
fn hkdf_sha256(okm_len: usize, salt: &[u8], ikm: &[u8], info: &[u8]) -> (okm: Vec<u8>)
    requires
        okm_len <= 8160,
        salt@.len() <= u32::MAX,
        ikm@.len() <= u32::MAX,
        info@.len() <= u32::MAX,
    ensures
        okm@.len() == okm_len,
        okm@ == spec_hkdf_sha256(okm_len as nat, salt@, ikm@, info@),
{
    let mut okm = vec![0u8; okm_len];
    libcrux_hkdf::hkdf(libcrux_hkdf::Algorithm::Sha256, &mut okm, salt, ikm, info).unwrap();
    okm
}

/// Calls `libcrux_hmac::hmac_sha2_256`; claims the named HMAC value. The
/// outside function panics on data longer than `u32::MAX`.
#[verifier::external_body]
fn hmac_sha2_256_call(key: &[u8; 32], data: &[u8]) -> (tag: [u8; 32])
    requires
        data@.len() <= u32::MAX,
    ensures
        tag@ == spec_hmac_sha256(key@, data@),
{
    let mut dst = [0u8; 32];
    libcrux_hmac::hmac_sha2_256(&mut dst, key, data);
    dst
}

/// Calls `libcrux_sha3::sha256`; claims the named digest.
#[verifier::external_body]
fn sha3_256_call(data: &[u8]) -> (digest: [u8; 32])
    requires
        data@.len() <= u32::MAX,
    ensures
        digest@ == spec_sha3_256(data@),
{
    libcrux_sha3::sha256(data)
}

/// Calls `libcrux_ecdh::x25519_derive` after converting the two byte arrays
/// to the crate's key types (the private key is clamped on conversion).
/// Claims the named result: `None` exactly where the call fails.
#[verifier::external_body]
fn x25519_derive_call(public_key: &[u8; 32], private_key: &[u8; 32]) -> (ss: Option<[u8; 32]>)
    ensures
        match ss {
            Some(s) => spec_x25519_derive(public_key@, private_key@) == Some(s@),
            None => spec_x25519_derive(public_key@, private_key@) is None,
        },
{
    let pk = libcrux_ecdh::X25519PublicKey::from(public_key);
    let sk = libcrux_ecdh::X25519PrivateKey::from(private_key);
    match libcrux_ecdh::x25519_derive(&pk, &sk) {
        Ok(ss) => Some(ss.0),
        Err(_) => None,
    }
}

/// Calls `libcrux_ml_dsa::ml_dsa_65::generate_key_pair`; claims the named
/// (signing key, verification key) pair of the randomness.
#[verifier::external_body]
fn ml_dsa_65_generate_call(randomness: [u8; 32]) -> (res: ([u8; 4032], [u8; 1952]))
    ensures
        (res.0@, res.1@) == spec_ml_dsa_65_key_pair(randomness@),
{
    let kp = libcrux_ml_dsa::ml_dsa_65::generate_key_pair(randomness);
    (*kp.signing_key.as_ref(), *kp.verification_key.as_ref())
}

/// Calls `libcrux_ml_dsa::ml_dsa_65::sign`; claims the named result, `None`
/// exactly where the outside function returns an error.
#[verifier::external_body]
fn ml_dsa_65_sign_call(signing_key: &[u8; 4032], message: &[u8], context: &[u8], randomness: [u8; 32]) -> (sig: Option<[u8; 3309]>)
    ensures
        match sig {
            Some(s) => spec_ml_dsa_65_sign(signing_key@, message@, context@, randomness@) == Some(s@),
            None => spec_ml_dsa_65_sign(signing_key@, message@, context@, randomness@) is None,
        },
{
    let sk = libcrux_ml_dsa::MLDSASigningKey::new(*signing_key);
    match libcrux_ml_dsa::ml_dsa_65::sign(&sk, message, context, randomness) {
        Ok(s) => Some(*s.as_ref()),
        Err(_) => None,
    }
}

/// Calls `libcrux_ml_dsa::ml_dsa_65::verify`; claims the named verdict.
#[verifier::external_body]
fn ml_dsa_65_verify_call(verification_key: &[u8; 1952], message: &[u8], context: &[u8], signature: &[u8; 3309]) -> (ok: bool)
    ensures
        ok == spec_ml_dsa_65_verify(verification_key@, message@, context@, signature@),
{
    let sig = libcrux_ml_dsa::ml_dsa_65::MLDSA65Signature::new(*signature);
    let vk = libcrux_ml_dsa::MLDSAVerificationKey::new(*verification_key);
    libcrux_ml_dsa::ml_dsa_65::verify(&vk, message, context, &sig).is_ok()
}

/// Calls `libcrux_ml_kem::mlkem768::generate_key_pair`; claims the named
/// (private key, public key) pair of the randomness.
#[verifier::external_body]
fn ml_kem_768_generate_call(randomness: [u8; 64]) -> (res: ([u8; 2400], [u8; 1184]))
    ensures
        (res.0@, res.1@) == spec_ml_kem_768_key_pair(randomness@),
{
    let kp = libcrux_ml_kem::mlkem768::generate_key_pair(randomness);
    (*kp.sk(), *kp.pk())
}

/// Calls `libcrux_ml_kem::mlkem768::encapsulate`; claims the named
/// (ciphertext, shared secret) pair.
#[verifier::external_body]
fn ml_kem_768_encapsulate_call(public_key: &[u8; 1184], randomness: [u8; 32]) -> (res: ([u8; 1088], [u8; 32]))
    ensures
        (res.0@, res.1@) == spec_ml_kem_768_encapsulate(public_key@, randomness@),
{
    let pk = libcrux_ml_kem::mlkem768::MlKem768PublicKey::from(public_key);
    let (ct, ss) = libcrux_ml_kem::mlkem768::encapsulate(&pk, randomness);
    (*ct.as_slice(), ss)
}

/// Calls `libcrux_ml_kem::mlkem768::decapsulate`; claims the named shared secret.
#[verifier::external_body]
fn ml_kem_768_decapsulate_call(private_key: &[u8; 2400], ciphertext: &[u8; 1088]) -> (ss: [u8; 32])
    ensures
        ss@ == spec_ml_kem_768_decapsulate(private_key@, ciphertext@),
{
    let sk = libcrux_ml_kem::mlkem768::MlKem768PrivateKey::from(private_key);
    let ct = libcrux_ml_kem::mlkem768::MlKem768Ciphertext::from(ciphertext);
    libcrux_ml_kem::mlkem768::decapsulate(&sk, &ct)
}

/// Calls `KeyPairCompressedBytes::from_seed` of the incremental ML-KEM-768
/// API and reads its three parts. Claims what the crate's source shows:
/// `sk()` is the whole compressed key pair, `pk2()` its bytes 1152..2304 and
/// `pk1()` its bytes 2304..2368, of the named key pair of the seed.
#[verifier::external_body]
fn ml_kem_768_compressed_call(seed: [u8; 64]) -> (res: ([u8; 2400], [u8; 64], [u8; 1152]))
    ensures
        res.0@ == spec_ml_kem_768_compressed_key_pair(seed@),
        res.1@ == spec_ml_kem_768_compressed_key_pair(seed@).subrange(2304, 2368),
        res.2@ == spec_ml_kem_768_compressed_key_pair(seed@).subrange(1152, 2304),
{
    let keys = libcrux_ml_kem::mlkem768::incremental::KeyPairCompressedBytes::from_seed(seed);
    (*keys.sk(), *keys.pk1(), *keys.pk2())
}

/// Calls `libcrux_ml_kem::mlkem768::incremental::validate_pk_bytes`; claims
/// the named verdict.
#[verifier::external_body]
fn ml_kem_768_validate_call(pk1: &[u8], pk2: &[u8]) -> (ok: bool)
    ensures
        ok == spec_ml_kem_768_validate_pk(pk1@, pk2@),
{
    libcrux_ml_kem::mlkem768::incremental::validate_pk_bytes(pk1, pk2).is_ok()
}

/// Calls `libcrux_ml_kem::mlkem768::incremental::encapsulate1` with a state
/// buffer of `encaps_state_len()` (2080) bytes and a 32-byte secret buffer.
/// The crate's source returns an error only for a header shorter than 64
/// bytes or buffers of other sizes, which the types rule out. Claims the
/// named (state, first ciphertext, shared secret).
#[verifier::external_body]
fn ml_kem_768_encapsulate1_call(hdr: &[u8; 64], randomness: [u8; 32]) -> (res: ([u8; 2080], [u8; 960], [u8; 32]))
    ensures
        (res.0@, res.1@, res.2@) == spec_ml_kem_768_encapsulate1(hdr@, randomness@),
{
    let mut state = [0u8; 2080];
    let mut ss = [0u8; 32];
    let ct1 = libcrux_ml_kem::mlkem768::incremental::encapsulate1(hdr, randomness, &mut state, &mut ss).unwrap();
    (state, ct1.value, ss)
}

/// Calls `libcrux_ml_kem::mlkem768::incremental::encapsulate2`; claims the
/// named second ciphertext.
#[verifier::external_body]
fn ml_kem_768_encapsulate2_call(state: &[u8; 2080], pk2: &[u8; 1152]) -> (ct2: [u8; 128])
    ensures
        ct2@ == spec_ml_kem_768_encapsulate2(state@, pk2@),
{
    libcrux_ml_kem::mlkem768::incremental::encapsulate2(state, pk2).value
}

/// Calls `libcrux_ml_kem::mlkem768::incremental::decapsulate_compressed_key`;
/// claims the named shared secret.
#[verifier::external_body]
fn ml_kem_768_decapsulate_compressed_call(private_key: &[u8; 2400], ct1: &[u8; 960], ct2: &[u8; 128]) -> (ss: [u8; 32])
    ensures
        ss@ == spec_ml_kem_768_decapsulate_compressed(private_key@, ct1@, ct2@),
{
    let c1 = libcrux_ml_kem::mlkem768::incremental::Ciphertext1 { value: *ct1 };
    let c2 = libcrux_ml_kem::mlkem768::incremental::Ciphertext2 { value: *ct2 };
    libcrux_ml_kem::mlkem768::incremental::decapsulate_compressed_key(private_key, &c1, &c2)
}

/// Calls `encrypt` of `libcrux_aead::chacha20poly1305::Key` with a
/// ciphertext buffer as long as the plaintext. The crate's source fails only
/// on a buffer of another length or inputs longer than `u32::MAX`, which
/// `requires` leaves out. Claims the named (ciphertext, tag).
#[verifier::external_body]
fn chacha20poly1305_encrypt_call(key: &[u8; 32], nonce: &[u8; 12], aad: &[u8], plaintext: &[u8]) -> (res: (Vec<u8>, [u8; 16]))
    requires
        aad@.len() <= u32::MAX,
        plaintext@.len() <= u32::MAX,
    ensures
        res.0@.len() == plaintext@.len(),
        (res.0@, res.1@) == spec_chacha20poly1305_encrypt(key@, nonce@, aad@, plaintext@),
{
    let mut ct = vec![0u8; plaintext.len()];
    let mut tag = ChaChaTag::from([0u8; 16]);
    ChaChaKey::from(*key).encrypt(&mut ct, &mut tag, &ChaChaNonce::from(*nonce), aad, plaintext).unwrap();
    (ct, *tag.as_ref())
}

/// Calls `decrypt` of `libcrux_aead::chacha20poly1305::Key` with a
/// plaintext buffer as long as the ciphertext. Claims the named result,
/// `None` exactly where the outside function returns an error, and that a
/// plaintext is as long as the ciphertext. It also claims what ChaCha20-
/// Poly1305 guarantees: decrypting with the key, nonce and associated data
/// that produced a (ciphertext, tag) gives back the plaintext.
#[verifier::external_body]
fn chacha20poly1305_decrypt_call(key: &[u8; 32], nonce: &[u8; 12], aad: &[u8], ciphertext: &[u8], tag: &[u8; 16]) -> (pt: Option<Vec<u8>>)
    ensures
        match pt {
            Some(p) => spec_chacha20poly1305_decrypt(key@, nonce@, aad@, ciphertext@, tag@) == Some(p@)
                && p@.len() == ciphertext@.len(),
            None => spec_chacha20poly1305_decrypt(key@, nonce@, aad@, ciphertext@, tag@) is None,
        },
        pt is None ==> forall|p: Seq<u8>| #[trigger] spec_chacha20poly1305_encrypt(key@, nonce@, aad@, p) != (ciphertext@, tag@),
        pt matches Some(q) ==> forall|p: Seq<u8>| #[trigger] spec_chacha20poly1305_encrypt(key@, nonce@, aad@, p) == (ciphertext@, tag@) ==> q@ == p,
{
    let mut pt = vec![0u8; ciphertext.len()];
    match ChaChaKey::from(*key).decrypt(&mut pt, &ChaChaNonce::from(*nonce), aad, ciphertext, &ChaChaTag::from(*tag)) {
        Ok(()) => Some(pt),
        Err(_) => None,
    }
}


// ---------------------------------------------------------------------------
// The library's entry points into the primitives.
// ---------------------------------------------------------------------------

/// The protocol label is 22 ASCII bytes long.
pub proof fn lemma_protocol_info_len()
    ensures
        PROTOCOL_INFO.spec_bytes().len() == 22,
{
    reveal_strlit("HACSS_MLKEM768_SHA-256");
    vstd::string::is_ascii_spec_bytes(PROTOCOL_INFO);
}

/// Info string of the initial key derivation of the sparse ratchet.
pub open spec fn scka_init_info() -> Seq<u8> {
    PROTOCOL_INFO.spec_bytes() + " Chain start".spec_bytes()
}

/// Info string of the root key step of the sparse ratchet.
pub open spec fn scka_rk_info() -> Seq<u8> {
    PROTOCOL_INFO.spec_bytes() + " Chain Add Epoch".spec_bytes()
}

/// Generates an ML-DSA-65 key pair (signing key, verification key) from fresh randomness.
pub fn libcrux_ml_dsa_generate_key_pair() -> (res: ([u8; 4032], [u8; 1952]))
    ensures
        exists|r: Seq<u8>| r.len() == 32 && #[trigger] spec_ml_dsa_65_key_pair(r) == (res.0@, res.1@),
{
    let randomness = make_randomness::<32>();
    let res = ml_dsa_65_generate_call(randomness);
    assert(spec_ml_dsa_65_key_pair(randomness@) == (res.0@, res.1@));
    res
}

/// Signs `key_to_sign` under `zero_context` with fresh signing randomness.
/// Fails only where ML-DSA itself refuses the randomness drawn.
pub fn libcrux_ml_dsa_sign<'a>(signing_key: &keys::MLDSA65SigningKey, key_to_sign: &[u8], zero_context: &[u8]) -> (res: Result<[u8; 3309], &'a str>)
    ensures
        match res {
            Ok(sig) => exists|r: Seq<u8>| r.len() == 32
                && #[trigger] spec_ml_dsa_65_sign(signing_key.0@, key_to_sign@, zero_context@, r) == Some(sig@),
            Err(_) => exists|r: Seq<u8>| r.len() == 32
                && #[trigger] spec_ml_dsa_65_sign(signing_key.0@, key_to_sign@, zero_context@, r) is None,
        },
{
    let randomness = make_randomness::<32>();
    match ml_dsa_65_sign_call(&signing_key.0, key_to_sign, zero_context, randomness) {
        Some(sig) => {
            assert(spec_ml_dsa_65_sign(signing_key.0@, key_to_sign@, zero_context@, randomness@) == Some(sig@));
            Ok(sig)
        },
        None => {
            assert(spec_ml_dsa_65_sign(signing_key.0@, key_to_sign@, zero_context@, randomness@) is None);
            Err("Could not sign the key")
        },
    }
}

/// Generates an ML-KEM-768 key pair (private key, public key) from fresh randomness.
pub fn libcrux_ml_kem_generate_key_pair() -> (res: ([u8; keys::ML_KEM_768_SK_SIZE], [u8; keys::ML_KEM_768_PK_SIZE]))
    ensures
        exists|r: Seq<u8>| r.len() == 64 && #[trigger] spec_ml_kem_768_key_pair(r) == (res.0@, res.1@),
{
    let randomness = make_randomness::<64>();
    let res = ml_kem_768_generate_call(randomness);
    assert(spec_ml_kem_768_key_pair(randomness@) == (res.0@, res.1@));
    res
}

/// Verifies an ML-DSA-65 signature of `message` under `context`.
pub fn libcrux_ml_dsa_verify<'a>(verification_key: &keys::MLDSA65VerificationKey, message: &[u8], context: &[u8], signature: &[u8; 3309]) -> (res: Result<(), &'a str>)
    ensures
        res is Ok <==> spec_ml_dsa_65_verify(verification_key.0@, message@, context@, signature@),
        res matches Err(e) ==> e@ == "Could not verify the signature"@,
{
    if ml_dsa_65_verify_call(&verification_key.0, message, context, signature) {
        Ok(())
    } else {
        Err("Could not verify the signature")
    }
}

/// Encapsulates a fresh shared secret to an ML-KEM-768 public key:
/// (ciphertext, shared secret).
pub fn libcrux_ml_kem_768_encaps(public_key: &[u8; keys::ML_KEM_768_PK_SIZE]) -> (res: ([u8; keys::ML_KEM_768_CT_SIZE], [u8; 32]))
    ensures
        exists|r: Seq<u8>| r.len() == 32 && #[trigger] spec_ml_kem_768_encapsulate(public_key@, r) == (res.0@, res.1@),
{
    let randomness = make_randomness::<32>();
    let res = ml_kem_768_encapsulate_call(public_key, randomness);
    assert(spec_ml_kem_768_encapsulate(public_key@, randomness@) == (res.0@, res.1@));
    res
}

/// X25519 Diffie-Hellman of a public and a private key.
pub fn libcrux_ecdh_x25519_derive<'a>(public_key: keys::X25519PublicKey, secret_key: keys::X25519PrivateKey) -> (res: Result<[u8; 32], &'a str>)
    ensures
        match res {
            Ok(ss) => spec_x25519_derive(public_key.0@, secret_key.0@) == Some(ss@),
            Err(_) => spec_x25519_derive(public_key.0@, secret_key.0@) is None,
        },
{
    match x25519_derive_call(&public_key.0, &secret_key.0) {
        Some(ss) => Ok(ss),
        None => Err("Could not derive dh from Public key and Private key"),
    }
}

/// Decapsulates an ML-KEM-768 ciphertext.
pub fn libcrux_ml_kem_decapsulate(private_key: &[u8; keys::ML_KEM_768_SK_SIZE], ciphertext: [u8; keys::ML_KEM_768_CT_SIZE]) -> (ss: [u8; 32])
    ensures
        ss@ == spec_ml_kem_768_decapsulate(private_key@, ciphertext@),
{
    ml_kem_768_decapsulate_call(private_key, &ciphertext)
}

/// ChaCha20-Poly1305 encryption under a fresh random nonce; returns
/// (ciphertext, tag, nonce).
pub fn libcrux_aead_encrypts_ad(sk: &[u8; 32], ad: &[u8], plaintext: &[u8]) -> (res: Result<(Vec<u8>, [u8; 16], [u8; NONCE_SIZE]), String>)
    requires
        ad@.len() <= u32::MAX,
        plaintext@.len() <= u32::MAX,
    ensures
        match res {
            Ok((ct, tag, nonce)) => ct@.len() == plaintext@.len()
                && spec_chacha20poly1305_encrypt(sk@, nonce@, ad@, plaintext@) == (ct@, tag@),
            Err(_) => false,
        },
{
    let nonce = make_randomness::<12>();
    let (ct, tag) = chacha20poly1305_encrypt_call(sk, &nonce, ad, plaintext);
    Ok((ct, tag, nonce))
}

/// ChaCha20-Poly1305 encryption of the 32-byte initial PQXDH plaintext under
/// a fresh random nonce; returns (ciphertext, tag, nonce).
pub fn libcrux_aead_encrypts_ad_initial_message(sk: &[u8; 32], ad: &[u8; 64], plaintext: &[u8; 32]) -> (res: Result<([u8; 32], [u8; 16], [u8; NONCE_SIZE]), String>)
    ensures
        match res {
            Ok((ct, tag, nonce)) => spec_chacha20poly1305_encrypt(sk@, nonce@, ad@, plaintext@) == (ct@, tag@),
            Err(_) => false,
        },
{
    let nonce = make_randomness::<12>();
    let (ct, tag) = chacha20poly1305_encrypt_call(sk, &nonce, ad, plaintext);
    let ct_arr = extract_chunk::<32>(ct.as_slice(), 0);
    assert(ct_arr@ =~= ct@);
    Ok((ct_arr, tag, nonce))
}

/// ChaCha20-Poly1305 decryption of the 32-byte initial PQXDH ciphertext.
pub fn libcrux_aead_decrypts_ad_initial_message(sk: &[u8; 32], ad: &[u8], ciphertext: &[u8], tag: &[u8; 16], nonce: &[u8; NONCE_SIZE]) -> (res: Result<[u8; 32], String>)
    requires
        ciphertext@.len() == 32,
    ensures
        match res {
            Ok(pt) => spec_chacha20poly1305_decrypt(sk@, nonce@, ad@, ciphertext@, tag@) == Some(pt@),
            Err(_) => spec_chacha20poly1305_decrypt(sk@, nonce@, ad@, ciphertext@, tag@) is None,
        },
{
    match chacha20poly1305_decrypt_call(sk, nonce, ad, ciphertext, tag) {
        Some(pt) => {
            let arr = extract_chunk::<32>(pt.as_slice(), 0);
            assert(arr@ =~= pt@);
            Ok(arr)
        },
        None => Err("Decryption error".to_string()),
    }
}

/// ChaCha20-Poly1305 decryption.
pub fn libcrux_aead_decrypts_ad<'a>(sk: &[u8; 32], ad: &[u8], ciphertext: &[u8], tag: &[u8; TAG_SIZE], nonce: &[u8; NONCE_SIZE]) -> (res: Result<Vec<u8>, &'a str>)
    ensures
        match res {
            Ok(pt) => spec_chacha20poly1305_decrypt(sk@, nonce@, ad@, ciphertext@, tag@) == Some(pt@)
                && pt@.len() == ciphertext@.len(),
            Err(_) => spec_chacha20poly1305_decrypt(sk@, nonce@, ad@, ciphertext@, tag@) is None,
        },
        forall|p: Seq<u8>| #[trigger] spec_chacha20poly1305_encrypt(sk@, nonce@, ad@, p) == (ciphertext@, tag@)
            ==> (res matches Ok(pt) && pt@ == p),
{
    match chacha20poly1305_decrypt_call(sk, nonce, ad, ciphertext, tag) {
        Some(pt) => Ok(pt),
        None => Err("Decryption error"),
    }
}

/// HMAC-SHA-256.
pub fn libcrux_hmac_sha2_256(key: &[u8; 32], data: &[u8]) -> (res: [u8; 32])
    requires
        data@.len() <= u32::MAX,
    ensures
        res@ == spec_hmac_sha256(key@, data@),
{
    hmac_sha2_256_call(key, data)
}

/// HKDF-SHA-256 with 64 bytes of output.
pub fn libcrux_gen_kdf_key_auth(salt: &[u8], ikm: &[u8], info: &[u8]) -> (res: [u8; 64])
    requires
        salt@.len() <= u32::MAX,
        ikm@.len() <= u32::MAX,
        info@.len() <= u32::MAX,
    ensures
        res@ == spec_hkdf_sha256(64, salt@, ikm@, info@),
{
    let okm = hkdf_sha256(64, salt, ikm, info);
    let res = extract_chunk::<64>(okm.as_slice(), 0);
    assert(res@ =~= okm@);
    res
}

/// HKDF-SHA-256 with 80 bytes of output.
pub fn libcrux_hkdf_80(salt: &[u8], ikm: &[u8], info: &[u8]) -> (res: [u8; 80])
    requires
        salt@.len() <= u32::MAX,
        ikm@.len() <= u32::MAX,
        info@.len() <= u32::MAX,
    ensures
        res@ == spec_hkdf_sha256(80, salt@, ikm@, info@),
{
    let okm = hkdf_sha256(80, salt, ikm, info);
    let res = extract_chunk::<80>(okm.as_slice(), 0);
    assert(res@ =~= okm@);
    res
}

/// Generates an incremental ML-KEM-768 key pair from a fresh seed; returns
/// (decapsulation key, header = ek_seed || hek, encapsulation key vector).
pub fn libcrux_ml_kem_key_pair_compressed_generate() -> (res: ([u8; DECAPSULATION_KEY_SIZE], [u8; HEADER_SIZE], [u8; EK_VECTOR_SIZE]))
    ensures
        exists|seed: Seq<u8>| seed.len() == 64 && {
            let kp = #[trigger] spec_ml_kem_768_compressed_key_pair(seed);
            &&& res.0@ == kp
            &&& res.1@ == kp.subrange(2304, 2368)
            &&& res.2@ == kp.subrange(1152, 2304)
        },
{
    let seed = make_randomness::<64>();
    let res = ml_kem_768_compressed_call(seed);
    assert(res.0@ == spec_ml_kem_768_compressed_key_pair(seed@));
    res
}

/// Checks that an encapsulation key header and vector belong together.
pub fn libcrux_ml_kem_validate<'a>(hdr: &[u8], ek_vector: &[u8]) -> (res: Result<(), &'a str>)
    ensures
        res is Ok <==> spec_ml_kem_768_validate_pk(hdr@, ek_vector@),
{
    if ml_kem_768_validate_call(hdr, ek_vector) {
        Ok(())
    } else {
        Err("Couldn't validate the header and ek_vector")
    }
}

/// SHA3-256.
pub fn libcrux_sha3_256(data: &[u8]) -> (res: [u8; 32])
    requires
        data@.len() <= u32::MAX,
    ensures
        res@ == spec_sha3_256(data@),
{
    sha3_256_call(data)
}

/// Decapsulates a two-part incremental ML-KEM-768 ciphertext.
pub fn libcrux_ml_kem_decapsulate_compressed_key(private_key: &[u8; DECAPSULATION_KEY_SIZE], ct1: &[u8; CT1_SIZE], ct2: &[u8; CT2_SIZE]) -> (res: [u8; 32])
    ensures
        res@ == spec_ml_kem_768_decapsulate_compressed(private_key@, ct1@, ct2@),
{
    ml_kem_768_decapsulate_compressed_call(private_key, ct1, ct2)
}

/// First half of an incremental ML-KEM-768 encapsulation; returns
/// (encapsulation state, first ciphertext, shared secret).
pub fn libcrux_ml_kem_encapsulate_1(hdr: &[u8; 64], randomness: [u8; 32]) -> (res: ([u8; ENCAPS_SECRET_SIZE], [u8; CT1_SIZE], [u8; 32]))
    ensures
        (res.0@, res.1@, res.2@) == spec_ml_kem_768_encapsulate1(hdr@, randomness@),
{
    ml_kem_768_encapsulate1_call(hdr, randomness)
}

/// HKDF-SHA-256 with 32 bytes of output (the SCKA output key derivation).
pub fn libcrux_gen_kdf_key_ok(salt: &[u8], ikm: &[u8], info: &[u8]) -> (res: [u8; 32])
    requires
        salt@.len() <= u32::MAX,
        ikm@.len() <= u32::MAX,
        info@.len() <= u32::MAX,
    ensures
        res@ == spec_hkdf_sha256(32, salt@, ikm@, info@),
{
    let okm = hkdf_sha256(32, salt, ikm, info);
    let res = extract_chunk::<32>(okm.as_slice(), 0);
    assert(res@ =~= okm@);
    res
}

/// Second half of an incremental ML-KEM-768 encapsulation.
pub fn libcrux_ml_kem_encapsulate_2(state: &[u8; ENCAPS_SECRET_SIZE], public_key_part: &[u8; EK_VECTOR_SIZE]) -> (res: [u8; CT2_SIZE])
    ensures
        res@ == spec_ml_kem_768_encapsulate2(state@, public_key_part@),
{
    ml_kem_768_encapsulate2_call(state, public_key_part)
}

/// HKDF-SHA-256 with 32 bytes of output.
pub fn libcrux_gen_kdf_key(salt: &[u8], ikm: &[u8], info: &[u8]) -> (res: [u8; 32])
    requires
        salt@.len() <= u32::MAX,
        ikm@.len() <= u32::MAX,
        info@.len() <= u32::MAX,
    ensures
        res@ == spec_hkdf_sha256(32, salt@, ikm@, info@),
{
    let okm = hkdf_sha256(32, salt, ikm, info);
    let res = extract_chunk::<32>(okm.as_slice(), 0);
    assert(res@ =~= okm@);
    res
}

/// HKDF-SHA-256 with 96 bytes of output under the info
/// `PROTOCOL_INFO + " Chain start"`.
pub fn libcrux_gen_kdf_key_scka_init(salt: &[u8], ikm: &[u8]) -> (res: [u8; 96])
    requires
        salt@.len() <= u32::MAX,
        ikm@.len() <= u32::MAX,
    ensures
        res@ == spec_hkdf_sha256(96, salt@, ikm@, scka_init_info()),
{
    let mut info: Vec<u8> = Vec::new();
    crate::util::helper_func::append_bytes(&mut info, PROTOCOL_INFO.as_bytes());
    crate::util::helper_func::append_bytes(&mut info, " Chain start".as_bytes());
    proof {
        lemma_protocol_info_len();
        reveal_strlit(" Chain start");
        vstd::string::is_ascii_spec_bytes(" Chain start");
    }
    let okm = hkdf_sha256(96, salt, ikm, info.as_slice());
    let res = extract_chunk::<96>(okm.as_slice(), 0);
    assert(res@ =~= okm@);
    res
}

/// HKDF-SHA-256 with 96 bytes of output under the info
/// `PROTOCOL_INFO + " Chain Add Epoch"`.
pub fn libcrux_gen_kdf_key_scka_rk(salt: &[u8], ikm: &[u8]) -> (res: [u8; 96])
    requires
        salt@.len() <= u32::MAX,
        ikm@.len() <= u32::MAX,
    ensures
        res@ == spec_hkdf_sha256(96, salt@, ikm@, scka_rk_info()),
{
    let mut info: Vec<u8> = Vec::new();
    crate::util::helper_func::append_bytes(&mut info, PROTOCOL_INFO.as_bytes());
    crate::util::helper_func::append_bytes(&mut info, " Chain Add Epoch".as_bytes());
    proof {
        lemma_protocol_info_len();
        reveal_strlit(" Chain Add Epoch");
        vstd::string::is_ascii_spec_bytes(" Chain Add Epoch");
    }
    let okm = hkdf_sha256(96, salt, ikm, info.as_slice());
    let res = extract_chunk::<96>(okm.as_slice(), 0);
    assert(res@ =~= okm@);
    res
}

/// HKDF-SHA-256 with a message key's worth of output (the hybrid message key).
pub fn libcrux_gen_kdf_hybrid(salt: &[u8], ikm: &[u8], info: &[u8]) -> (res: [u8; MESSAGE_KEY_SIZE])
    requires
        salt@.len() <= u32::MAX,
        ikm@.len() <= u32::MAX,
        info@.len() <= u32::MAX,
    ensures
        res@ == spec_hkdf_sha256(32, salt@, ikm@, info@),
{
    let okm = hkdf_sha256(32, salt, ikm, info);
    let res = extract_chunk::<32>(okm.as_slice(), 0);
    assert(res@ =~= okm@);
    res
}

} // verus!
