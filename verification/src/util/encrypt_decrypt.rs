use vstd::prelude::*;
use vstd::string::StringSliceAdditionalSpecFns;
use vstd::utf8::{decode_utf8, valid_utf8};
use aes::cipher::{BlockModeDecrypt, BlockModeEncrypt, KeyIvInit};
use aes::cipher::block_padding::Pkcs7;
use crate::util::constants::TR_PROTOCOL_INFO;
use crate::util::helper_func::{append_bytes, copy_range, extract_chunk, zero_bytes};
use crate::util::keys::MessageKey;
use crate::util::libcrux_wrap::{libcrux_hkdf_80, libcrux_hmac_sha2_256, spec_hkdf_sha256, spec_hmac_sha256};

verus! {

broadcast use vstd::array::group_array_axioms;

/// AES-256 in CBC mode with PKCS#7 padding, as `cbc::Encryptor<aes::Aes256>`
/// computes it.
pub uninterp spec fn spec_aes256_cbc_encrypt(key: Seq<u8>, iv: Seq<u8>, plaintext: Seq<u8>) -> Seq<u8>;

/// AES-256-CBC decryption with PKCS#7 unpadding, as
/// `cbc::Decryptor<aes::Aes256>` computes it; `None` where it fails.
pub uninterp spec fn spec_aes256_cbc_decrypt(key: Seq<u8>, iv: Seq<u8>, ciphertext: Seq<u8>) -> Option<Seq<u8>>;

/// Calls `encrypt_padded_b2b::<Pkcs7>` of `cbc::Encryptor<aes::Aes256>`
/// into `buf`, which has room for exactly the padded message (PKCS#7 always
/// adds 1 to 16 bytes), so the call does not fail. Claims the named
/// ciphertext, as long as the buffer.
#[verifier::external_body]
fn aes256_cbc_encrypt_call(key: &[u8; 32], iv: &[u8; 16], plaintext: &[u8], buf: Vec<u8>) -> (ct: Vec<u8>)
    requires
        buf@.len() == (plaintext@.len() / 16 + 1) * 16,
    ensures
        ct@ == spec_aes256_cbc_encrypt(key@, iv@, plaintext@),
        ct@.len() == buf@.len(),
{
    let mut buf = buf;
    let enc = cbc::Encryptor::<aes::Aes256>::new(&(*key).into(), &(*iv).into());
    enc.encrypt_padded_b2b::<Pkcs7>(plaintext, &mut buf).unwrap().to_vec()
}

/// Calls `decrypt_padded_b2b::<Pkcs7>` of `cbc::Decryptor<aes::Aes256>`,
/// which fails on a length that is not a multiple of the block size or on
/// malformed padding. Claims the named result, and what CBC with PKCS#7
/// guarantees: decrypting the encryption of a plaintext under the same key
/// and IV gives the plaintext back.
#[verifier::external_body]
fn aes256_cbc_decrypt_call(key: &[u8; 32], iv: &[u8; 16], ciphertext: &[u8]) -> (pt: Option<Vec<u8>>)
    ensures
        match pt {
            Some(p) => spec_aes256_cbc_decrypt(key@, iv@, ciphertext@) == Some(p@),
            None => spec_aes256_cbc_decrypt(key@, iv@, ciphertext@) is None,
        },
        pt is None ==> forall|p: Seq<u8>| #[trigger] spec_aes256_cbc_encrypt(key@, iv@, p) != ciphertext@,
        pt matches Some(q) ==> forall|p: Seq<u8>| #[trigger] spec_aes256_cbc_encrypt(key@, iv@, p) == ciphertext@ ==> q@ == p,
{
    let mut buf = ciphertext.to_vec();
    let dec = cbc::Decryptor::<aes::Aes256>::new(&(*key).into(), &(*iv).into());
    match dec.decrypt_padded_b2b::<Pkcs7>(ciphertext, &mut buf) {
        Ok(pt) => Some(pt.to_vec()),
        Err(_) => None,
    }
}

/// Calls `String::from_utf8`: the decoded string for valid UTF-8, `None`
/// otherwise, as its documentation states.
#[verifier::external_body]
pub(crate) fn string_from_utf8(bytes: Vec<u8>) -> (s: Option<String>)
    ensures
        match s {
            Some(t) => valid_utf8(bytes@) && t@ == decode_utf8(bytes@),
            None => !valid_utf8(bytes@),
        },
{
    String::from_utf8(bytes).ok()
}

/// AES-256-CBC encryption with PKCS#7 padding.
pub fn encrypt_aes256_cbc(plaintext: Vec<u8>, encryption_key: [u8; 32], iv: [u8; 16]) -> (res: Vec<u8>)
    requires
        plaintext@.len() < usize::MAX / 2,
    ensures
        res@ == spec_aes256_cbc_encrypt(encryption_key@, iv@, plaintext@),
        res@.len() == (plaintext@.len() / 16 + 1) * 16,
{
    let buf_len = (plaintext.len() / 16 + 1) * 16;
    let buf = vec![0u8; buf_len];
    aes256_cbc_encrypt_call(&encryption_key, &iv, plaintext.as_slice(), buf)
}

/// AES-256-CBC decryption with PKCS#7 unpadding; fails on a ciphertext
/// whose length is not a multiple of 16 or whose padding is malformed.
pub fn decrypt_aes256_cbc<'a>(ciphertext: &[u8], decryption_key: [u8; 32], iv: [u8; 16]) -> (res: Result<Vec<u8>, &'a str>)
    ensures
        match res {
            Ok(p) => spec_aes256_cbc_decrypt(decryption_key@, iv@, ciphertext@) == Some(p@),
            Err(_) => spec_aes256_cbc_decrypt(decryption_key@, iv@, ciphertext@) is None,
        },
        forall|p: Seq<u8>| #[trigger] spec_aes256_cbc_encrypt(decryption_key@, iv@, p) == ciphertext@
            ==> (res matches Ok(q) && q@ == p),
{
    match aes256_cbc_decrypt_call(&decryption_key, &iv, ciphertext) {
        Some(pt) => Ok(pt),
        None => Err("The ciphertext is not a padded AES-256-CBC ciphertext"),
    }
}

/// The triple ratchet label is 28 ASCII bytes long.
pub proof fn lemma_tr_protocol_info_len()
    ensures
        TR_PROTOCOL_INFO.spec_bytes().len() == 28,
{
    reveal_strlit("HACSS_TRIPLE_RATCHET_SHA-256");
    vstd::string::is_ascii_spec_bytes(TR_PROTOCOL_INFO);
}

/// The 80 bytes derived from a message key: encryption key, MAC key, IV.
pub open spec fn spec_message_keys(mk: Seq<u8>) -> Seq<u8> {
    spec_hkdf_sha256(80, zero_bytes(80), mk, TR_PROTOCOL_INFO.spec_bytes())
}

/// The AES ciphertext of a message under a message key.
pub open spec fn spec_body(mk: Seq<u8>, plaintext: Seq<u8>) -> Seq<u8> {
    let k = spec_message_keys(mk);
    spec_aes256_cbc_encrypt(k.subrange(0, 32), k.subrange(64, 80), plaintext)
}

/// An encrypted message: `HMAC(ad || body) || body`.
pub open spec fn spec_encrypt(mk: Seq<u8>, plaintext: Seq<u8>, ad: Seq<u8>) -> Seq<u8> {
    let k = spec_message_keys(mk);
    spec_hmac_sha256(k.subrange(32, 64), ad + spec_body(mk, plaintext)) + spec_body(mk, plaintext)
}

/// What decrypting `ct` gives: the string when the MAC checks, the body
/// decrypts and the bytes are UTF-8.
pub open spec fn spec_decrypt(mk: Seq<u8>, ct: Seq<u8>, ad: Seq<u8>) -> Option<Seq<char>> {
    let k = spec_message_keys(mk);
    let body = ct.skip(32);
    if ct.take(32) == spec_hmac_sha256(k.subrange(32, 64), ad + body) {
        match spec_aes256_cbc_decrypt(k.subrange(0, 32), k.subrange(64, 80), body) {
            Some(p) => if valid_utf8(p) { Some(decode_utf8(p)) } else { None },
            None => None,
        }
    } else {
        None
    }
}

/// Encrypts a message under a message key, authenticating `ad_header`:
/// AES-256-CBC under the first 32 derived bytes and the IV in the last 16,
/// HMAC under the middle 32.
pub fn encrypt(mk: &MessageKey, plaintext: &str, ad_header: &[u8]) -> (res: Vec<u8>)
    requires
        plaintext.spec_bytes().len() < usize::MAX / 2,
        ad_header@.len() + (plaintext.spec_bytes().len() / 16 + 1) * 16 <= u32::MAX,
    ensures
        res@ == spec_encrypt(mk.0@, plaintext.spec_bytes(), ad_header@),
        res@.len() == 32 + (plaintext.spec_bytes().len() / 16 + 1) * 16,
        res@.len() == 32 + spec_body(mk.0@, plaintext.spec_bytes()).len(),
{
    let salt = [0u8; 80];
    proof {
        lemma_tr_protocol_info_len();
        assert(salt@ =~= zero_bytes(80));
    }
    let ek_auth_iv: [u8; 80] = libcrux_hkdf_80(&salt, &mk.0, TR_PROTOCOL_INFO.as_bytes());
    let ek: [u8; 32] = extract_chunk::<32>(&ek_auth_iv, 0);
    let auth: [u8; 32] = extract_chunk::<32>(&ek_auth_iv, 32);
    let iv: [u8; 16] = extract_chunk::<16>(&ek_auth_iv, 64);
    let pt_bytes = plaintext.as_bytes();
    let plaintext_vec = copy_range(pt_bytes, 0, pt_bytes.len());
    assert(plaintext_vec@ =~= plaintext.spec_bytes());
    let ciphertext = encrypt_aes256_cbc(plaintext_vec, ek, iv);
    let mut ad_header_ct: Vec<u8> = Vec::new();
    append_bytes(&mut ad_header_ct, ad_header);
    append_bytes(&mut ad_header_ct, ciphertext.as_slice());
    let hmac_ad_ct = libcrux_hmac_sha2_256(&auth, ad_header_ct.as_slice());
    let mut ct: Vec<u8> = Vec::new();
    append_bytes(&mut ct, &hmac_ad_ct);
    append_bytes(&mut ct, ciphertext.as_slice());
    ct
}

/// Decrypts a message. Fails when the MAC does not match, when the body is
/// not a padded AES ciphertext, or when the plaintext is not UTF-8. The
/// encryption of a string under the same key and data decrypts to it.
pub fn decrypt<'a>(mk: &MessageKey, ciphertext: &Vec<u8>, ad_header: &[u8]) -> (res: Result<String, &'a str>)
    requires
        ciphertext@.len() >= 32,
        ad_header@.len() + ciphertext@.len() <= u32::MAX,
    ensures
        match res {
            Ok(s) => spec_decrypt(mk.0@, ciphertext@, ad_header@) == Some(s@),
            Err(_) => spec_decrypt(mk.0@, ciphertext@, ad_header@) is None,
        },
        forall|s: &str| #[trigger] spec_encrypt(mk.0@, s.spec_bytes(), ad_header@) == ciphertext@
            && ciphertext@.len() == 32 + spec_body(mk.0@, s.spec_bytes()).len() ==> (res matches Ok(t) && t@ == s@),
{
    let salt = [0u8; 80];
    proof {
        lemma_tr_protocol_info_len();
        assert(salt@ =~= zero_bytes(80));
    }
    let dk_auth_iv: [u8; 80] = libcrux_hkdf_80(&salt, &mk.0, TR_PROTOCOL_INFO.as_bytes());
    let dk: [u8; 32] = extract_chunk::<32>(&dk_auth_iv, 0);
    let auth: [u8; 32] = extract_chunk::<32>(&dk_auth_iv, 32);
    let iv: [u8; 16] = extract_chunk::<16>(&dk_auth_iv, 64);
    let hmac: [u8; 32] = extract_chunk::<32>(ciphertext.as_slice(), 0);
    let body = copy_range(ciphertext.as_slice(), 32, ciphertext.len());
    let mut ad_header_ct: Vec<u8> = Vec::new();
    append_bytes(&mut ad_header_ct, ad_header);
    append_bytes(&mut ad_header_ct, body.as_slice());
    let expected_hmac = libcrux_hmac_sha2_256(&auth, ad_header_ct.as_slice());
    proof {
        assert(body@ =~= ciphertext@.skip(32));
        assert(hmac@ =~= ciphertext@.take(32));
        assert forall|s: &str| #[trigger] spec_encrypt(mk.0@, s.spec_bytes(), ad_header@) == ciphertext@
            && ciphertext@.len() == 32 + spec_body(mk.0@, s.spec_bytes()).len() implies hmac@ == expected_hmac@ && spec_body(mk.0@, s.spec_bytes()) == body@ by {
            let b = spec_body(mk.0@, s.spec_bytes());
            let h = spec_hmac_sha256(spec_message_keys(mk.0@).subrange(32, 64), ad_header@ + b);
            assert(ciphertext@ == h + b);
            assert(ciphertext@.skip(32) =~= b);
            assert(ciphertext@.take(32) =~= h);
        }
    }
    if !crate::util::helper_func::bytes_equal(&hmac, &expected_hmac) {
        return Err("Expected HMAC and HMAC is not equal");
    }
    let pt_vec = match decrypt_aes256_cbc(body.as_slice(), dk, iv) {
        Ok(p) => p,
        Err(e) => return Err(e),
    };
    proof {
        assert forall|s: &str| #[trigger] spec_encrypt(mk.0@, s.spec_bytes(), ad_header@) == ciphertext@
            && ciphertext@.len() == 32 + spec_body(mk.0@, s.spec_bytes()).len() implies pt_vec@ == s.spec_bytes() && valid_utf8(pt_vec@) && decode_utf8(pt_vec@) == s@ by {
            vstd::utf8::encode_utf8_valid_utf8(s@);
            vstd::utf8::encode_utf8_decode_utf8(s@);
        }
    }
    match string_from_utf8(pt_vec) {
        Some(s) => Ok(s),
        None => Err("decrypted bytes are not valid UTF-8"),
    }
}

} // verus!
