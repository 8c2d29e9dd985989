use vstd::prelude::*;
use vstd::string::StringSliceAdditionalSpecFns;
use vstd::utf8::encode_utf8;
use crate::double_ratchet::messages_ratchet::{ratchet_receive_key, ratchet_send_key, send_key_post};
use crate::double_ratchet::ratchet_state::{StateDHRatchet, dr_size};
use crate::kdf_chain::kdf_chain_impl::{spec_kdf_rk_chain, spec_kdf_rk_root};
use crate::spqr::spqr_impl::{SPQRState, scka_header_bytes, send_key_rel, init_post, Direction, spqr_size};
use crate::util::constants::{SHARED_SECRET_SIZE, TR_PROTOCOL_INFO};
use crate::util::encrypt_decrypt::{decrypt, encrypt, lemma_tr_protocol_info_len, spec_body, spec_decrypt, spec_encrypt};
use crate::util::helper_func::append_bytes;
use crate::util::keys::{MessageKey, RootChainKey, X25519KeyPair, X25519PublicKey};
use crate::util::libcrux_wrap::{libcrux_gen_kdf_hybrid, spec_hkdf_sha256};
use crate::util::messages::{ECHeader, SCKAMessageHeader, TRHeader, ec_header_bytes};
use crate::ml_kem_braid::ml_kem_braid_impl::{is_initiator_braid, is_responder_braid};

verus! {

/// The triple ratchet: a Diffie-Hellman ratchet and a sparse post-quantum
/// ratchet whose message keys are combined into each message's key.
#[derive(Debug)]
pub struct TripleRatchetState {
    pub ec_state: StateDHRatchet,
    pub spqr_state: SPQRState,
}

/// `c` holds what `s` holds: the same keys, counters and chains, the same
/// skipped keys, the same braid state, and well-formedness carries over.
pub open spec fn copy_of(c: TripleRatchetState, s: TripleRatchetState) -> bool {
    &&& c.ec_state.dhs == s.ec_state.dhs
    &&& c.ec_state.dhr == s.ec_state.dhr
    &&& c.ec_state.rk == s.ec_state.rk
    &&& c.ec_state.ckr == s.ec_state.ckr
    &&& c.ec_state.cks == s.ec_state.cks
    &&& c.ec_state.ns == s.ec_state.ns
    &&& c.ec_state.nr == s.ec_state.nr
    &&& c.ec_state.pn == s.ec_state.pn
    &&& c.ec_state.mk_skipped@ == s.ec_state.mk_skipped@
    &&& c.spqr_state.rk == s.spqr_state.rk
    &&& c.spqr_state.epoch == s.spqr_state.epoch
    &&& c.spqr_state.kdfchains@ == s.spqr_state.kdfchains@
    &&& c.spqr_state.mkskipped@ == s.spqr_state.mkskipped@
    &&& c.spqr_state.direction == s.spqr_state.direction
    &&& crate::ml_kem_braid::ml_kem_braid_impl::braid_copy(c.spqr_state.scka_state.state, s.spqr_state.scka_state.state)
    &&& s.wf() ==> c.wf()
}

impl Clone for TripleRatchetState {
    fn clone(&self) -> (res: Self)
        ensures
            copy_of(res, *self),
    {
        TripleRatchetState { ec_state: self.ec_state.clone(), spqr_state: self.spqr_state.clone() }
    }
}

/// The message key combining a Diffie-Hellman ratchet key and a sparse
/// ratchet key.
pub open spec fn spec_kdf_hybrid(ec_mk: Seq<u8>, scka_mk: Seq<u8>) -> Seq<u8> {
    spec_hkdf_sha256(32, scka_mk, ec_mk, TR_PROTOCOL_INFO.spec_bytes())
}

/// The authenticated data of a message: `ad`, then both headers' bytes.
pub open spec fn tr_ad(ad: Seq<u8>, scka_header: SCKAMessageHeader, ec_header: ECHeader) -> Seq<u8> {
    ad + scka_header_bytes(scka_header) + ec_header_bytes(ec_header)
}

/// The bytes encrypted for a message: the empty message travels as "empty".
pub open spec fn sent_bytes(plaintext: Seq<char>) -> Seq<u8> {
    if plaintext.len() == 0 { "empty".spec_bytes() } else { encode_utf8(plaintext) }
}

/// The message delivered for decrypted text: "empty" stands for the empty message.
pub open spec fn delivered(p: Seq<char>) -> Seq<char> {
    if p == "empty"@ { Seq::empty() } else { p }
}

/// A fresh initiator's triple ratchet: the Diffie-Hellman ratchet took its
/// first root step from `ss_ec` with a new key pair towards the peer's key
/// `peer`, and the sparse ratchet starts from `ss_scka` with the initiator's
/// braid.
pub open spec fn fresh_initiator_tr(s: TripleRatchetState, ss_ec: Seq<u8>, ss_scka: Seq<u8>, peer: X25519PublicKey) -> bool {
    &&& s.wf()
    &&& s.ec_state.dhr == Some(peer)
    &&& s.ec_state.dhs.public_key.0@ == crate::pqxdh::pqxdh_impl::spec_x25519_public(s.ec_state.dhs.private_key.0@)
    &&& crate::util::libcrux_wrap::spec_x25519_derive(peer.0@, s.ec_state.dhs.private_key.0@) matches Some(dh)
    &&& s.ec_state.rk.0@ == spec_kdf_rk_root(ss_ec, dh)
    &&& s.ec_state.cks matches Some(ck)
    &&& ck.0@ == spec_kdf_rk_chain(ss_ec, dh)
    &&& s.ec_state.ckr is None && s.ec_state.ns == 0 && s.ec_state.nr == 0 && s.ec_state.pn == 0
    &&& s.ec_state.mk_skipped@.len() == 0
    &&& init_post(s.spqr_state, ss_scka, Direction::A2B)
    &&& is_initiator_braid(s.spqr_state.scka_state, ss_scka)
}

/// A fresh responder's triple ratchet: the Diffie-Hellman ratchet keyed by
/// `ss_ec` with its own key pair `own` and no peer key yet, the sparse
/// ratchet from `ss_scka` with the responder's braid.
pub open spec fn fresh_responder_tr(s: TripleRatchetState, ss_ec: Seq<u8>, ss_scka: Seq<u8>, own: X25519KeyPair) -> bool {
    &&& s.wf()
    &&& s.ec_state.dhs == own
    &&& s.ec_state.dhr is None
    &&& s.ec_state.rk.0@ == ss_ec
    &&& s.ec_state.cks is None && s.ec_state.ckr is None
    &&& s.ec_state.ns == 0 && s.ec_state.nr == 0 && s.ec_state.pn == 0
    &&& s.ec_state.mk_skipped@.len() == 0
    &&& init_post(s.spqr_state, ss_scka, Direction::B2A)
    &&& is_responder_braid(s.spqr_state.scka_state, ss_scka)
}

/// Combines the two ratchets' message keys.
pub fn kdf_hybrid(ec_mk: MessageKey, scka_mk: MessageKey) -> (res: MessageKey)
    ensures
        res.0@ == spec_kdf_hybrid(ec_mk.0@, scka_mk.0@),
{
    proof {
        lemma_tr_protocol_info_len();
    }
    let mk = libcrux_gen_kdf_hybrid(&scka_mk.0, &ec_mk.0, TR_PROTOCOL_INFO.as_bytes());
    MessageKey(mk)
}

/// The authenticated data of a message: `ad`, then both headers' bytes.
pub fn concat_ad_with_tr_header(ad: [u8; 64], scka_header: &SCKAMessageHeader, ec_header: &ECHeader) -> (res: Vec<u8>)
    ensures
        res@ == tr_ad(ad@, *scka_header, *ec_header),
{
    let scka_header_bytes = SPQRState::scka_header_to_bytes(scka_header);
    let ec_header_bytes = ec_header.header_to_bytes();
    let mut ad_header: Vec<u8> = Vec::new();
    append_bytes(&mut ad_header, &ad);
    append_bytes(&mut ad_header, scka_header_bytes.as_slice());
    append_bytes(&mut ad_header, &ec_header_bytes);
    ad_header
}

/// What an encryption does to the state and returns: the Diffie-Hellman
/// ratchet's sending step, then (where it succeeds) the sparse ratchet's,
/// and the plaintext encrypted under the hybrid of both message keys with
/// the headers in the associated data.
pub open spec fn encrypt_rel<'a>(old: TripleRatchetState, plaintext: Seq<char>, ad: Seq<u8>, new: TripleRatchetState, res: Result<(TRHeader, Vec<u8>), &'a str>) -> bool {
    exists|ec1: StateDHRatchet, ecres: Result<(MessageKey, u64), &'a str>|
        #[trigger] send_key_post(old.ec_state, ec1, ecres) && match ecres {
        Err(_) => res is Err && new == (TripleRatchetState { ec_state: ec1, ..old }),
        Ok((ec_mk, ns)) => exists|sp1: SPQRState, spres: Result<(crate::util::messages::SCKAMessage, u64, MessageKey), &'a str>|
            #[trigger] send_key_rel(old.spqr_state, sp1, spres)
            && new == (TripleRatchetState { ec_state: ec1, spqr_state: sp1 }) && match spres {
            Err(_) => res is Err,
            Ok((msg, n, pq_mk)) => res matches Ok((h, ct))
                && h.ec_header == (ECHeader { dh_pub: old.ec_state.dhs.public_key, pn: old.ec_state.pn, n: ns })
                && h.scka_header == (SCKAMessageHeader { message: msg, pn: n })
                && ct@ == spec_encrypt(spec_kdf_hybrid(ec_mk.0@, pq_mk.0@), sent_bytes(plaintext),
                    tr_ad(ad, h.scka_header, h.ec_header))
                && ct@.len() == 32 + spec_body(spec_kdf_hybrid(ec_mk.0@, pq_mk.0@), sent_bytes(plaintext)).len()
                && ct@.len() == 32 + (sent_bytes(plaintext).len() / 16 + 1) * 16,
        },
    }
}

/// What a decryption does to the state and returns: the Diffie-Hellman
/// ratchet's receiving step, then (where it succeeds) the sparse ratchet's,
/// and the ciphertext opened under the hybrid of both message keys.
pub open spec fn decrypt_rel<'a>(old: TripleRatchetState, header: TRHeader, ct: Seq<u8>, ad: Seq<u8>, new: TripleRatchetState, res: Result<String, &'a str>) -> bool {
    exists|ec1: StateDHRatchet, ecres: Result<MessageKey, &'a str>|
        #[trigger] crate::double_ratchet::messages_ratchet::receive_key_rel(old.ec_state, header.ec_header, ec1, ecres)
        && match ecres {
        Err(_) => res is Err && new == (TripleRatchetState { ec_state: ec1, ..old }),
        Ok(ec_mk) => exists|sp1: SPQRState, spres: Result<MessageKey, &'a str>|
            #[trigger] crate::spqr::spqr_impl::receive_key_rel(old.spqr_state, header.scka_header, sp1, spres)
            && new == (TripleRatchetState { ec_state: ec1, spqr_state: sp1 }) && match spres {
            Err(_) => res is Err,
            Ok(pq_mk) => decrypt_outcome(spec_kdf_hybrid(ec_mk.0@, pq_mk.0@), ct,
                tr_ad(ad, header.scka_header, header.ec_header), res),
        },
    }
}

impl TripleRatchetState {
    /// Approximate memory footprint in bytes: both ratchets'.
    pub fn state_size(&self) -> (res: usize)
        requires
            dr_size(self.ec_state) + spqr_size(self.spqr_state) <= usize::MAX,
        ensures
            res == dr_size(self.ec_state) + spqr_size(self.spqr_state),
    {
        proof {
            crate::spqr::spqr_impl::lemma_spqr_size_nonneg(self.spqr_state);
            crate::double_ratchet::ratchet_state::lemma_dr_size_nonneg(self.ec_state);
        }
        let ec_header_size = self.ec_state.state_size();
        let scka_header_size = self.spqr_state.state_size();
        ec_header_size + scka_header_size
    }

    /// Well-formedness of both ratchets.
    pub open spec fn wf(&self) -> bool {
        self.ec_state.wf() && self.spqr_state.wf()
    }

    /// The initiator's triple ratchet: the Diffie-Hellman ratchet keyed by
    /// `ss_ec` towards the peer's key, the sparse ratchet keyed by
    /// `ss_scka`. Fails where the Diffie-Hellman ratchet cannot start.
    pub fn rathet_init_initiator_tr<'a>(ss_ec: [u8; SHARED_SECRET_SIZE], ss_scka: [u8; SHARED_SECRET_SIZE], bob_dh_public_key: X25519PublicKey) -> (res: Result<Self, &'a str>)
        ensures
            match res {
                Ok(s) => fresh_initiator_tr(s, ss_ec@, ss_scka@, bob_dh_public_key),
                Err(_) => exists|k: Seq<u8>| crate::util::libcrux_wrap::spec_x25519_derive(bob_dh_public_key.0@, k) is None,
            },
    {
        let rk_for_ec_state = RootChainKey(ss_ec);
        let ec_state = match StateDHRatchet::init_initiator(rk_for_ec_state, bob_dh_public_key) {
            Ok(s) => s,
            Err(e) => return Err(e),
        };
        let spqr_state = SPQRState::ratchet_init_initiator(&ss_scka);
        Ok(Self { ec_state, spqr_state })
    }

    /// The responder's triple ratchet: the Diffie-Hellman ratchet keyed by
    /// `ss_ec` with its own key pair, the sparse ratchet keyed by `ss_scka`.
    pub fn rathet_init_responder_tr(ss_ec: [u8; SHARED_SECRET_SIZE], ss_scka: [u8; SHARED_SECRET_SIZE], bob_dh_key_pair: X25519KeyPair) -> (res: Self)
        ensures
            fresh_responder_tr(res, ss_ec@, ss_scka@, bob_dh_key_pair),
    {
        let rk_for_ec_state = RootChainKey(ss_ec);
        let ec_state = StateDHRatchet::init_responder(rk_for_ec_state, bob_dh_key_pair);
        let spqr_state = SPQRState::ratchet_init_responder(&ss_scka);
        Self { ec_state, spqr_state }
    }

    /// Encrypts a message: the Diffie-Hellman ratchet's and the sparse
    /// ratchet's next sending keys are combined into the message key, and
    /// the message is encrypted with `ad` and both headers authenticated.
    /// The empty message is sent as "empty".
    pub fn tr_encrypt<'a>(&mut self, plaintext: &String, ad: &[u8; 64]) -> (res: Result<(TRHeader, Vec<u8>), &'a str>)
        requires
            old(self).wf(),
            encode_utf8(plaintext@).len() + 512 <= u32::MAX,
            encode_utf8(plaintext@).len() + 512 < usize::MAX / 2,
        ensures
            final(self).wf(),
            encrypt_rel(*old(self), plaintext@, ad@, *final(self), res),
    {
        let empty_message = "empty";
        proof {
            reveal_strlit("empty");
            vstd::string::is_ascii_spec_bytes("empty");
        }
        let pt: &str = if plaintext.as_str().is_empty() { empty_message } else { plaintext.as_str() };
        let ecres = ratchet_send_key(&mut self.ec_state);
        let ghost ec1 = self.ec_state;
        let (ec_mk, ec_ns) = match ecres {
            Ok(p) => p,
            Err(e) => return Err(e),
        };
        let spres = self.spqr_state.scka_ratchet_send_key();
        let ghost sp1 = self.spqr_state;
        let (scka_msg, pq_n, pq_mk) = match spres {
            Ok(t) => t,
            Err(e) => {
                assert(send_key_rel(old(self).spqr_state, sp1, spres));
                return Err(e);
            },
        };
        let mk = kdf_hybrid(ec_mk, pq_mk);
        let ec_header = match ECHeader::header(Some(self.ec_state.dhs), self.ec_state.pn, ec_ns) {
            Ok(h) => h,
            Err(e) => return Err(e),
        };
        let scka_header = SPQRState::scka_header(scka_msg, pq_n);
        let tr_header = TRHeader { ec_header, scka_header };
        let ad_header = concat_ad_with_tr_header(*ad, &tr_header.scka_header, &tr_header.ec_header);
        let ct = encrypt(&mk, pt, ad_header.as_slice());
        let res: Result<(TRHeader, Vec<u8>), &'a str> = Ok((tr_header, ct));
        assert(send_key_rel(old(self).spqr_state, sp1, spres));
        res
    }

    /// Decrypts a message: the Diffie-Hellman ratchet's and the sparse
    /// ratchet's keys for its headers are combined into the message key.
    /// Text reading "empty" is delivered as the empty message.
    pub fn tr_decrypt<'a>(&mut self, header: TRHeader, ct: Vec<u8>, ad: [u8; 64]) -> (res: Result<String, &'a str>)
        requires
            old(self).wf(),
            ct@.len() >= 32,
            tr_ad(ad@, header.scka_header, header.ec_header).len() + ct@.len() <= u32::MAX,
        ensures
            final(self).wf(),
            decrypt_rel(*old(self), header, ct@, ad@, *final(self), res),
    {
        let ad_header = concat_ad_with_tr_header(ad, &header.scka_header, &header.ec_header);
        let TRHeader { ec_header, scka_header } = header;
        let ecres = ratchet_receive_key(&mut self.ec_state, &ec_header);
        let ghost ec1 = self.ec_state;
        let ec_mk = match ecres {
            Ok(mk) => mk,
            Err(e) => return Err(e),
        };
        let spres = self.spqr_state.scka_ratchet_receive_key(scka_header);
        let ghost sp1 = self.spqr_state;
        let pq_mk = match spres {
            Ok(mk) => mk,
            Err(e) => {
                assert(crate::spqr::spqr_impl::receive_key_rel(old(self).spqr_state, header.scka_header, sp1, spres));
                return Err(e);
            },
        };
        let mk = kdf_hybrid(ec_mk, pq_mk);
        let plaintext = match decrypt(&mk, &ct, ad_header.as_slice()) {
            Ok(p) => p,
            Err(e) => {
                assert(crate::spqr::spqr_impl::receive_key_rel(old(self).spqr_state, header.scka_header, sp1, spres));
                return Err(e);
            },
        };
        let empty_message = "empty".to_owned();
        let res: Result<String, &'a str> = if plaintext == empty_message {
            let e = String::new();
            Ok(e)
        } else {
            Ok(plaintext)
        };
        assert(crate::spqr::spqr_impl::receive_key_rel(old(self).spqr_state, header.scka_header, sp1, spres));
        res
    }
}

/// What decrypting `ct` under `mk` with data `ad` delivers; the encryption
/// of text under the same key and data delivers that text.
pub open spec fn decrypt_outcome<'a>(mk: Seq<u8>, ct: Seq<u8>, ad: Seq<u8>, res: Result<String, &'a str>) -> bool {
    &&& match spec_decrypt(mk, ct, ad) {
        None => res is Err,
        Some(p) => res matches Ok(s) && s@ == delivered(p),
    }
    &&& forall|s: &str| #[trigger] spec_encrypt(mk, s.spec_bytes(), ad) == ct && ct.len() == 32 + spec_body(mk, s.spec_bytes()).len()
        ==> (res matches Ok(t) && t@ == delivered(s@))
}


/// The first message of a session arrives: the initiator's triple ratchet,
/// fresh from the secrets `ss_ec` and `ss_scka` towards the responder's
/// signed prekey `spk`, encrypts `pt`; the responder's, fresh from the same
/// secrets with the key pair `spk`, decrypts the header and ciphertext with
/// the same `ad` and gets `pt` back, where X25519 agrees on the two key
/// pairs. (The text "empty" stands for the empty message, so it alone is
/// delivered as the empty message.)
pub proof fn law_first_message_delivered_tr<'a>(
    ss_ec: Seq<u8>,
    ss_scka: Seq<u8>,
    spk: X25519KeyPair,
    a0: TripleRatchetState,
    pt: &str,
    ad: Seq<u8>,
    a1: TripleRatchetState,
    sres: Result<(TRHeader, Vec<u8>), &'a str>,
    b0: TripleRatchetState,
    b1: TripleRatchetState,
    rres: Result<String, &'a str>,
)
    requires
        fresh_initiator_tr(a0, ss_ec, ss_scka, spk.public_key),
        fresh_responder_tr(b0, ss_ec, ss_scka, spk),
        crate::util::libcrux_wrap::spec_x25519_derive(a0.ec_state.dhs.public_key.0@, spk.private_key.0@)
            == crate::util::libcrux_wrap::spec_x25519_derive(spk.public_key.0@, a0.ec_state.dhs.private_key.0@),
        pt@ != "empty"@,
        encrypt_rel(a0, pt@, ad, a1, sres),
        sres matches Ok((h, ct)) ==> decrypt_rel(b0, h, ct@, ad, b1, rres),
    ensures
        sres is Ok,
        rres matches Ok(t) && t@ == pt@,
        sres matches Ok((h, ct)) ==> tr_ad(ad, h.scka_header, h.ec_header).len() <= ad.len() + 105
            && ct@.len() == 32 + (sent_bytes(pt@).len() / 16 + 1) * 16,
{
    let (ec1, ecres) = choose|ec1: StateDHRatchet, ecres: Result<(MessageKey, u64), &'a str>|
        #[trigger] send_key_post(a0.ec_state, ec1, ecres) && match ecres {
        Err(_) => sres is Err && a1 == (TripleRatchetState { ec_state: ec1, ..a0 }),
        Ok((ec_mk, ns)) => exists|sp1: SPQRState, spres: Result<(crate::util::messages::SCKAMessage, u64, MessageKey), &'a str>|
            #[trigger] send_key_rel(a0.spqr_state, sp1, spres)
            && a1 == (TripleRatchetState { ec_state: ec1, spqr_state: sp1 }) && match spres {
            Err(_) => sres is Err,
            Ok((msg, n, pq_mk)) => sres matches Ok((h, ct))
                && h.ec_header == (ECHeader { dh_pub: a0.ec_state.dhs.public_key, pn: a0.ec_state.pn, n: ns })
                && h.scka_header == (SCKAMessageHeader { message: msg, pn: n })
                && ct@ == spec_encrypt(spec_kdf_hybrid(ec_mk.0@, pq_mk.0@), sent_bytes(pt@),
                    tr_ad(ad, h.scka_header, h.ec_header))
                && ct@.len() == 32 + spec_body(spec_kdf_hybrid(ec_mk.0@, pq_mk.0@), sent_bytes(pt@)).len()
                && ct@.len() == 32 + (sent_bytes(pt@).len() / 16 + 1) * 16,
        },
    };
    assert(ecres is Ok);
    let (ec_mk, ns) = ecres.unwrap();
    assert(ns == 0);
    let (sp1, spres) = choose|sp1: SPQRState, spres: Result<(crate::util::messages::SCKAMessage, u64, MessageKey), &'a str>|
        #[trigger] send_key_rel(a0.spqr_state, sp1, spres)
        && a1 == (TripleRatchetState { ec_state: ec1, spqr_state: sp1 }) && match spres {
        Err(_) => sres is Err,
        Ok((msg, n, pq_mk)) => sres matches Ok((h, ct))
            && h.ec_header == (ECHeader { dh_pub: a0.ec_state.dhs.public_key, pn: a0.ec_state.pn, n: ns })
            && h.scka_header == (SCKAMessageHeader { message: msg, pn: n })
            && ct@ == spec_encrypt(spec_kdf_hybrid(ec_mk.0@, pq_mk.0@), sent_bytes(pt@),
                tr_ad(ad, h.scka_header, h.ec_header))
            && ct@.len() == 32 + spec_body(spec_kdf_hybrid(ec_mk.0@, pq_mk.0@), sent_bytes(pt@)).len()
            && ct@.len() == 32 + (sent_bytes(pt@).len() / 16 + 1) * 16,
    };
    if spres is Err {
        crate::spqr::spqr_impl::law_first_message_keys_agree(ss_scka, a0.spqr_state, sp1, spres,
            b0.spqr_state, b0.spqr_state, Err::<MessageKey, &'a str>(""));
        assert(false);
    }
    let (msg, n, pq_mk) = spres.unwrap();
    let (h, ct) = sres.unwrap();
    // the responder's side
    let (ec2, ecres2) = choose|ec2: StateDHRatchet, ecres2: Result<MessageKey, &'a str>|
        #[trigger] crate::double_ratchet::messages_ratchet::receive_key_rel(b0.ec_state, h.ec_header, ec2, ecres2)
        && match ecres2 {
        Err(_) => rres is Err && b1 == (TripleRatchetState { ec_state: ec2, ..b0 }),
        Ok(ec_mk2) => exists|sp2: SPQRState, spres2: Result<MessageKey, &'a str>|
            #[trigger] crate::spqr::spqr_impl::receive_key_rel(b0.spqr_state, h.scka_header, sp2, spres2)
            && b1 == (TripleRatchetState { ec_state: ec2, spqr_state: sp2 }) && match spres2 {
            Err(_) => rres is Err,
            Ok(pq_mk2) => decrypt_outcome(spec_kdf_hybrid(ec_mk2.0@, pq_mk2.0@), ct@,
                tr_ad(ad, h.scka_header, h.ec_header), rres),
        },
    };
    crate::double_ratchet::messages_ratchet::lemma_first_key_received(a0.ec_state, ss_ec, b0.ec_state,
        h.ec_header, ec2, ecres2);
    let ec_mk2 = ecres2.unwrap();
    let (sp2, spres2) = choose|sp2: SPQRState, spres2: Result<MessageKey, &'a str>|
        #[trigger] crate::spqr::spqr_impl::receive_key_rel(b0.spqr_state, h.scka_header, sp2, spres2)
        && b1 == (TripleRatchetState { ec_state: ec2, spqr_state: sp2 }) && match spres2 {
        Err(_) => rres is Err,
        Ok(pq_mk2) => decrypt_outcome(spec_kdf_hybrid(ec_mk2.0@, pq_mk2.0@), ct@,
            tr_ad(ad, h.scka_header, h.ec_header), rres),
    };
    crate::spqr::spqr_impl::law_first_message_keys_agree(ss_scka, a0.spqr_state, sp1, spres,
        b0.spqr_state, sp2, spres2);
    let pq_mk2 = spres2.unwrap();
    let key = spec_kdf_hybrid(ec_mk.0@, pq_mk.0@);
    assert(spec_kdf_hybrid(ec_mk2.0@, pq_mk2.0@) == key);
    lemma_opens_to(key, pt, tr_ad(ad, h.scka_header, h.ec_header), ct@, rres);
}

/// A ciphertext made from `pt` under `key` and `aad` opens to `pt` (the
/// text "empty" aside, which stands for the empty message).
proof fn lemma_opens_to<'a>(key: Seq<u8>, pt: &str, aad: Seq<u8>, ct: Seq<u8>, res: Result<String, &'a str>)
    requires
        pt@ != "empty"@,
        ct == spec_encrypt(key, sent_bytes(pt@), aad),
        ct.len() == 32 + spec_body(key, sent_bytes(pt@)).len(),
        decrypt_outcome(key, ct, aad, res),
    ensures
        res matches Ok(t) && t@ == pt@,
{
    if pt@.len() == 0 {
        let e: &str = "empty";
        reveal_strlit("empty");
        assert(e.spec_bytes() == sent_bytes(pt@));
        assert(spec_encrypt(key, e.spec_bytes(), aad) == ct);
        assert(delivered(e@) =~= pt@);
    } else {
        assert(pt.spec_bytes() == sent_bytes(pt@));
        assert(spec_encrypt(key, pt.spec_bytes(), aad) == ct);
    }
}


/// A session's two fresh triple ratchets start the conversation: the
/// responder awaits the initiator's first chain.
pub proof fn law_fresh_states_await(ss_ec: Seq<u8>, ss_scka: Seq<u8>, spk: X25519KeyPair, a: TripleRatchetState, b: TripleRatchetState)
    requires
        fresh_initiator_tr(a, ss_ec, ss_scka, spk.public_key),
        fresh_responder_tr(b, ss_ec, ss_scka, spk),
        crate::pqxdh::pqxdh_impl::curve_pair_ok(spk),
    ensures
        crate::double_ratchet::messages_ratchet::awaits_dh(a.ec_state, b.ec_state),
{
}


/// Messages in step arrive: when the receiver's Diffie-Hellman ratchet is
/// in step with the sender's chain and its sparse ratchet in step with the
/// sender's on epoch `e`, and both braids report that epoch with no new key
/// for the message, the message the sender encrypts is the one the receiver
/// decrypts with the same `ad`, and both stay in step. (The text "empty"
/// stands for the empty message.)
pub proof fn law_in_step_delivery_tr<'a>(
    e: u64,
    a: TripleRatchetState,
    pt: &str,
    ad: Seq<u8>,
    a1: TripleRatchetState,
    sres: Result<(TRHeader, Vec<u8>), &'a str>,
    b: TripleRatchetState,
    b1: TripleRatchetState,
    rres: Result<String, &'a str>,
)
    requires
        crate::double_ratchet::messages_ratchet::in_step(a.ec_state, b.ec_state),
        crate::spqr::spqr_impl::spqr_in_step(a.spqr_state, b.spqr_state, e),
        crate::spqr::spqr_impl::braid_sends_in(a.spqr_state.scka_state.state, e),
        pt@ != "empty"@,
        encrypt_rel(a, pt@, ad, a1, sres),
        sres matches Ok((h, ct)) ==> crate::spqr::spqr_impl::braid_receives_in(b.spqr_state.scka_state.state,
            h.scka_header.message, e) && decrypt_rel(b, h, ct@, ad, b1, rres),
    ensures
        a.ec_state.ns < u64::MAX && a.spqr_state.kdfchains@[e].sending.unwrap().counter < u64::MAX ==> sres is Ok,
        sres is Ok ==> {
            &&& rres matches Ok(t) && t@ == pt@
            &&& crate::double_ratchet::messages_ratchet::in_step(a1.ec_state, b1.ec_state)
            &&& crate::spqr::spqr_impl::spqr_in_step(a1.spqr_state, b1.spqr_state, e)
        },
{
    let (ec1, ecres) = choose|ec1: StateDHRatchet, ecres: Result<(MessageKey, u64), &'a str>|
        #[trigger] send_key_post(a.ec_state, ec1, ecres) && match ecres {
        Err(_) => sres is Err && a1 == (TripleRatchetState { ec_state: ec1, ..a }),
        Ok((ec_mk, ns)) => exists|sp1: SPQRState, spres: Result<(crate::util::messages::SCKAMessage, u64, MessageKey), &'a str>|
            #[trigger] send_key_rel(a.spqr_state, sp1, spres)
            && a1 == (TripleRatchetState { ec_state: ec1, spqr_state: sp1 }) && match spres {
            Err(_) => sres is Err,
            Ok((msg, n, pq_mk)) => sres matches Ok((h, ct))
                && h.ec_header == (ECHeader { dh_pub: a.ec_state.dhs.public_key, pn: a.ec_state.pn, n: ns })
                && h.scka_header == (SCKAMessageHeader { message: msg, pn: n })
                && ct@ == spec_encrypt(spec_kdf_hybrid(ec_mk.0@, pq_mk.0@), sent_bytes(pt@),
                    tr_ad(ad, h.scka_header, h.ec_header))
                && ct@.len() == 32 + spec_body(spec_kdf_hybrid(ec_mk.0@, pq_mk.0@), sent_bytes(pt@)).len()
                && ct@.len() == 32 + (sent_bytes(pt@).len() / 16 + 1) * 16,
        },
    };
    if let Ok((ec_mk, ns)) = ecres {
        let (sp1, spres) = choose|sp1: SPQRState, spres: Result<(crate::util::messages::SCKAMessage, u64, MessageKey), &'a str>|
            #[trigger] send_key_rel(a.spqr_state, sp1, spres)
            && a1 == (TripleRatchetState { ec_state: ec1, spqr_state: sp1 }) && match spres {
            Err(_) => sres is Err,
            Ok((msg, n, pq_mk)) => sres matches Ok((h, ct))
                && h.ec_header == (ECHeader { dh_pub: a.ec_state.dhs.public_key, pn: a.ec_state.pn, n: ns })
                && h.scka_header == (SCKAMessageHeader { message: msg, pn: n })
                && ct@ == spec_encrypt(spec_kdf_hybrid(ec_mk.0@, pq_mk.0@), sent_bytes(pt@),
                    tr_ad(ad, h.scka_header, h.ec_header))
                && ct@.len() == 32 + spec_body(spec_kdf_hybrid(ec_mk.0@, pq_mk.0@), sent_bytes(pt@)).len()
                && ct@.len() == 32 + (sent_bytes(pt@).len() / 16 + 1) * 16,
        };
        if spres is Err {
            crate::spqr::spqr_impl::law_in_epoch_delivery(e, a.spqr_state, sp1, spres, b.spqr_state, b.spqr_state,
                Err::<MessageKey, &'a str>(""));
        } else {
            let (msg, n, pq_mk) = spres.unwrap();
            let (h, ct) = sres.unwrap();
            let (ec2, ecres2) = choose|ec2: StateDHRatchet, ecres2: Result<MessageKey, &'a str>|
                #[trigger] crate::double_ratchet::messages_ratchet::receive_key_rel(b.ec_state, h.ec_header, ec2, ecres2)
                && match ecres2 {
                Err(_) => rres is Err && b1 == (TripleRatchetState { ec_state: ec2, ..b }),
                Ok(ec_mk2) => exists|sp2: SPQRState, spres2: Result<MessageKey, &'a str>|
                    #[trigger] crate::spqr::spqr_impl::receive_key_rel(b.spqr_state, h.scka_header, sp2, spres2)
                    && b1 == (TripleRatchetState { ec_state: ec2, spqr_state: sp2 }) && match spres2 {
                    Err(_) => rres is Err,
                    Ok(pq_mk2) => decrypt_outcome(spec_kdf_hybrid(ec_mk2.0@, pq_mk2.0@), ct@,
                        tr_ad(ad, h.scka_header, h.ec_header), rres),
                },
            };
            crate::double_ratchet::messages_ratchet::law_in_chain_delivery(a.ec_state, ec1, ecres, b.ec_state, ec2, ecres2);
            let ec_mk2 = ecres2.unwrap();
            let (sp2, spres2) = choose|sp2: SPQRState, spres2: Result<MessageKey, &'a str>|
                #[trigger] crate::spqr::spqr_impl::receive_key_rel(b.spqr_state, h.scka_header, sp2, spres2)
                && b1 == (TripleRatchetState { ec_state: ec2, spqr_state: sp2 }) && match spres2 {
                Err(_) => rres is Err,
                Ok(pq_mk2) => decrypt_outcome(spec_kdf_hybrid(ec_mk2.0@, pq_mk2.0@), ct@,
                    tr_ad(ad, h.scka_header, h.ec_header), rres),
            };
            crate::spqr::spqr_impl::law_in_epoch_delivery(e, a.spqr_state, sp1, spres, b.spqr_state, sp2, spres2);
            let pq_mk2 = spres2.unwrap();
            let key = spec_kdf_hybrid(ec_mk.0@, pq_mk.0@);
            assert(spec_kdf_hybrid(ec_mk2.0@, pq_mk2.0@) == key);
            lemma_opens_to(key, pt, tr_ad(ad, h.scka_header, h.ec_header), ct@, rres);
        }
    }
}

/// A reply on a new chain arrives: when the receiver's Diffie-Hellman
/// ratchet awaits the sender's new chain and its sparse ratchet is in step
/// with the sender's on epoch `e`, and both braids report that epoch with
/// no new key for the message, the message the sender encrypts is the one
/// the receiver decrypts with the same `ad`, and the two are then in step,
/// where X25519 agrees. (The text "empty" stands for the empty message.)
pub proof fn law_reply_delivery_tr<'a>(
    e: u64,
    a: TripleRatchetState,
    pt: &str,
    ad: Seq<u8>,
    a1: TripleRatchetState,
    sres: Result<(TRHeader, Vec<u8>), &'a str>,
    b: TripleRatchetState,
    b1: TripleRatchetState,
    rres: Result<String, &'a str>,
)
    requires
        crate::double_ratchet::messages_ratchet::awaits_dh(a.ec_state, b.ec_state),
        crate::pqxdh::pqxdh_impl::x25519_agrees(),
        crate::spqr::spqr_impl::spqr_in_step(a.spqr_state, b.spqr_state, e),
        crate::spqr::spqr_impl::braid_sends_in(a.spqr_state.scka_state.state, e),
        pt@ != "empty"@,
        encrypt_rel(a, pt@, ad, a1, sres),
        sres matches Ok((h, ct)) ==> crate::spqr::spqr_impl::braid_receives_in(b.spqr_state.scka_state.state,
            h.scka_header.message, e) && decrypt_rel(b, h, ct@, ad, b1, rres),
    ensures
        a.spqr_state.kdfchains@[e].sending.unwrap().counter < u64::MAX ==> sres is Ok,
        sres is Ok ==> {
            &&& rres matches Ok(t) && t@ == pt@
            &&& crate::double_ratchet::messages_ratchet::in_step(a1.ec_state, b1.ec_state)
            &&& crate::spqr::spqr_impl::spqr_in_step(a1.spqr_state, b1.spqr_state, e)
        },
{
    let (ec1, ecres) = choose|ec1: StateDHRatchet, ecres: Result<(MessageKey, u64), &'a str>|
        #[trigger] send_key_post(a.ec_state, ec1, ecres) && match ecres {
        Err(_) => sres is Err && a1 == (TripleRatchetState { ec_state: ec1, ..a }),
        Ok((ec_mk, ns)) => exists|sp1: SPQRState, spres: Result<(crate::util::messages::SCKAMessage, u64, MessageKey), &'a str>|
            #[trigger] send_key_rel(a.spqr_state, sp1, spres)
            && a1 == (TripleRatchetState { ec_state: ec1, spqr_state: sp1 }) && match spres {
            Err(_) => sres is Err,
            Ok((msg, n, pq_mk)) => sres matches Ok((h, ct))
                && h.ec_header == (ECHeader { dh_pub: a.ec_state.dhs.public_key, pn: a.ec_state.pn, n: ns })
                && h.scka_header == (SCKAMessageHeader { message: msg, pn: n })
                && ct@ == spec_encrypt(spec_kdf_hybrid(ec_mk.0@, pq_mk.0@), sent_bytes(pt@),
                    tr_ad(ad, h.scka_header, h.ec_header))
                && ct@.len() == 32 + spec_body(spec_kdf_hybrid(ec_mk.0@, pq_mk.0@), sent_bytes(pt@)).len()
                && ct@.len() == 32 + (sent_bytes(pt@).len() / 16 + 1) * 16,
        },
    };
    if let Ok((ec_mk, ns)) = ecres {
        let (sp1, spres) = choose|sp1: SPQRState, spres: Result<(crate::util::messages::SCKAMessage, u64, MessageKey), &'a str>|
            #[trigger] send_key_rel(a.spqr_state, sp1, spres)
            && a1 == (TripleRatchetState { ec_state: ec1, spqr_state: sp1 }) && match spres {
            Err(_) => sres is Err,
            Ok((msg, n, pq_mk)) => sres matches Ok((h, ct))
                && h.ec_header == (ECHeader { dh_pub: a.ec_state.dhs.public_key, pn: a.ec_state.pn, n: ns })
                && h.scka_header == (SCKAMessageHeader { message: msg, pn: n })
                && ct@ == spec_encrypt(spec_kdf_hybrid(ec_mk.0@, pq_mk.0@), sent_bytes(pt@),
                    tr_ad(ad, h.scka_header, h.ec_header))
                && ct@.len() == 32 + spec_body(spec_kdf_hybrid(ec_mk.0@, pq_mk.0@), sent_bytes(pt@)).len()
                && ct@.len() == 32 + (sent_bytes(pt@).len() / 16 + 1) * 16,
        };
        if spres is Err {
            crate::spqr::spqr_impl::law_in_epoch_delivery(e, a.spqr_state, sp1, spres, b.spqr_state, b.spqr_state,
                Err::<MessageKey, &'a str>(""));
        } else {
            let (msg, n, pq_mk) = spres.unwrap();
            let (h, ct) = sres.unwrap();
            let (ec2, ecres2) = choose|ec2: StateDHRatchet, ecres2: Result<MessageKey, &'a str>|
                #[trigger] crate::double_ratchet::messages_ratchet::receive_key_rel(b.ec_state, h.ec_header, ec2, ecres2)
                && match ecres2 {
                Err(_) => rres is Err && b1 == (TripleRatchetState { ec_state: ec2, ..b }),
                Ok(ec_mk2) => exists|sp2: SPQRState, spres2: Result<MessageKey, &'a str>|
                    #[trigger] crate::spqr::spqr_impl::receive_key_rel(b.spqr_state, h.scka_header, sp2, spres2)
                    && b1 == (TripleRatchetState { ec_state: ec2, spqr_state: sp2 }) && match spres2 {
                    Err(_) => rres is Err,
                    Ok(pq_mk2) => decrypt_outcome(spec_kdf_hybrid(ec_mk2.0@, pq_mk2.0@), ct@,
                        tr_ad(ad, h.scka_header, h.ec_header), rres),
                },
            };
            crate::double_ratchet::messages_ratchet::law_dh_step_delivery(a.ec_state, ec1, ecres, b.ec_state, ec2, ecres2);
            let ec_mk2 = ecres2.unwrap();
            let (sp2, spres2) = choose|sp2: SPQRState, spres2: Result<MessageKey, &'a str>|
                #[trigger] crate::spqr::spqr_impl::receive_key_rel(b.spqr_state, h.scka_header, sp2, spres2)
                && b1 == (TripleRatchetState { ec_state: ec2, spqr_state: sp2 }) && match spres2 {
                Err(_) => rres is Err,
                Ok(pq_mk2) => decrypt_outcome(spec_kdf_hybrid(ec_mk2.0@, pq_mk2.0@), ct@,
                    tr_ad(ad, h.scka_header, h.ec_header), rres),
            };
            crate::spqr::spqr_impl::law_in_epoch_delivery(e, a.spqr_state, sp1, spres, b.spqr_state, sp2, spres2);
            let pq_mk2 = spres2.unwrap();
            let key = spec_kdf_hybrid(ec_mk.0@, pq_mk.0@);
            assert(spec_kdf_hybrid(ec_mk2.0@, pq_mk2.0@) == key);
            lemma_opens_to(key, pt, tr_ad(ad, h.scka_header, h.ec_header), ct@, rres);
        }
    }
}


/// A copy of a fresh triple ratchet is just as fresh.
pub proof fn lemma_copy_keeps_fresh(c: TripleRatchetState, s: TripleRatchetState, ss_ec: Seq<u8>, ss_scka: Seq<u8>, spk: X25519KeyPair)
    requires
        copy_of(c, s),
    ensures
        fresh_initiator_tr(s, ss_ec, ss_scka, spk.public_key) ==> fresh_initiator_tr(c, ss_ec, ss_scka, spk.public_key),
        fresh_responder_tr(s, ss_ec, ss_scka, spk) ==> fresh_responder_tr(c, ss_ec, ss_scka, spk),
{
}


/// A fresh initiator's first encryption succeeds, with headers of at most
/// 105 bytes and a ciphertext of 32 bytes of MAC and the padded blocks.
pub proof fn lemma_first_encrypt<'a>(
    ss_ec: Seq<u8>,
    ss_scka: Seq<u8>,
    peer: X25519PublicKey,
    a0: TripleRatchetState,
    pt: Seq<char>,
    ad: Seq<u8>,
    a1: TripleRatchetState,
    sres: Result<(TRHeader, Vec<u8>), &'a str>,
)
    requires
        fresh_initiator_tr(a0, ss_ec, ss_scka, peer),
        encrypt_rel(a0, pt, ad, a1, sres),
    ensures
        sres matches Ok((h, ct)) && tr_ad(ad, h.scka_header, h.ec_header).len() <= ad.len() + 105
            && ct@.len() == 32 + (sent_bytes(pt).len() / 16 + 1) * 16,
{
    let (ec1, ecres) = choose|ec1: StateDHRatchet, ecres: Result<(MessageKey, u64), &'a str>|
        #[trigger] send_key_post(a0.ec_state, ec1, ecres) && match ecres {
        Err(_) => sres is Err && a1 == (TripleRatchetState { ec_state: ec1, ..a0 }),
        Ok((ec_mk, ns)) => exists|sp1: SPQRState, spres: Result<(crate::util::messages::SCKAMessage, u64, MessageKey), &'a str>|
            #[trigger] send_key_rel(a0.spqr_state, sp1, spres)
            && a1 == (TripleRatchetState { ec_state: ec1, spqr_state: sp1 }) && match spres {
            Err(_) => sres is Err,
            Ok((msg, n, pq_mk)) => sres matches Ok((h, ct))
                && h.ec_header == (ECHeader { dh_pub: a0.ec_state.dhs.public_key, pn: a0.ec_state.pn, n: ns })
                && h.scka_header == (SCKAMessageHeader { message: msg, pn: n })
                && ct@ == spec_encrypt(spec_kdf_hybrid(ec_mk.0@, pq_mk.0@), sent_bytes(pt),
                    tr_ad(ad, h.scka_header, h.ec_header))
                && ct@.len() == 32 + spec_body(spec_kdf_hybrid(ec_mk.0@, pq_mk.0@), sent_bytes(pt)).len()
                && ct@.len() == 32 + (sent_bytes(pt).len() / 16 + 1) * 16,
        },
    };
    let (ec_mk, ns) = ecres.unwrap();
    let (sp1, spres) = choose|sp1: SPQRState, spres: Result<(crate::util::messages::SCKAMessage, u64, MessageKey), &'a str>|
        #[trigger] send_key_rel(a0.spqr_state, sp1, spres)
        && a1 == (TripleRatchetState { ec_state: ec1, spqr_state: sp1 }) && match spres {
        Err(_) => sres is Err,
        Ok((msg, n, pq_mk)) => sres matches Ok((h, ct))
            && h.ec_header == (ECHeader { dh_pub: a0.ec_state.dhs.public_key, pn: a0.ec_state.pn, n: ns })
            && h.scka_header == (SCKAMessageHeader { message: msg, pn: n })
            && ct@ == spec_encrypt(spec_kdf_hybrid(ec_mk.0@, pq_mk.0@), sent_bytes(pt),
                tr_ad(ad, h.scka_header, h.ec_header))
            && ct@.len() == 32 + spec_body(spec_kdf_hybrid(ec_mk.0@, pq_mk.0@), sent_bytes(pt)).len()
            && ct@.len() == 32 + (sent_bytes(pt).len() / 16 + 1) * 16,
    };
    crate::spqr::spqr_impl::lemma_first_send(ss_scka, a0.spqr_state, sp1, spres);
}

} // verus!
