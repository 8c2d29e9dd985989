use vstd::prelude::*;
use vstd::string::StringSliceAdditionalSpecFns;
use crate::util::constants::{
    CHUNK_SIZE, CT1_SIZE, CT2_SIZE, DECAPSULATION_KEY_SIZE, EK_SEED_SIZE, EK_VECTOR_SIZE, ENCAPS_SECRET_SIZE,
    HEADER_SIZE, HEK_SIZE, MAC_SIZE, SHARED_SECRET_SIZE,
};
use crate::util::helper_func::{append_bytes, ascii_chars, ascii_string, concat, extract_chunk, lemma_ascii_literal, lemma_decimal_ascii, make_randomness, push_decimal, spec_decimal, zero_bytes, zeros_32};
use crate::util::keys::{ML_KEM_768_CT_SIZE, SCKAOutputKey};
use crate::util::libcrux_wrap::{
    libcrux_ml_kem_decapsulate_compressed_key, libcrux_ml_kem_encapsulate_1, libcrux_ml_kem_encapsulate_2,
    libcrux_ml_kem_key_pair_compressed_generate, libcrux_ml_kem_validate, spec_hmac_sha256,
    spec_ml_kem_768_compressed_key_pair, spec_ml_kem_768_decapsulate_compressed, spec_ml_kem_768_encapsulate1,
    spec_ml_kem_768_encapsulate2, spec_ml_kem_768_validate_pk,
};
use crate::util::messages::{Chunk, SCKAMessage, SCKAMessageType};
use crate::ml_kem_braid::authenticator::{
    Authenticator, auth_view, mac_ct_data, mac_hdr_data, spec_auth_update, spec_kdf_ok,
};
use crate::ml_kem_braid::decoder::SimpleDecoder;
use crate::ml_kem_braid::encoder::{SimpleEncoder, chunks_view, spec_chunks, spec_encoder_size};

verus! {

broadcast use vstd::array::group_array_axioms;

/// Header of an incremental encapsulation key: its seed and hash.
#[derive(Debug)]
pub struct MlKemHeader {
    pub ek_seed: [u8; EK_SEED_SIZE],
    pub hek: [u8; HEK_SIZE],
}

/// One party of the ML-KEM braid: a sparse continuous key agreement that
/// agrees on one fresh KEM secret per epoch, sending it in small chunks.
#[derive(Debug)]
pub struct MlKemBraid {
    pub state: BraidState,
}

/// The states of the braid. The party that samples the key pair of an
/// epoch runs the left column (KeysUnsampled .. EkSentCt1Received), the
/// other the right column (NoHeaderReceived .. Ct2Sampled).
#[derive(Debug)]
pub enum BraidState {
    KeysUnsampled { ku_epoch: u64, ku_auth: Authenticator },
    KeysSampled {
        ks_epoch: u64,
        ks_auth: Authenticator,
        ks_dk: [u8; DECAPSULATION_KEY_SIZE],
        ks_ek_seed: [u8; EK_SEED_SIZE],
        ks_ek_vector: [u8; EK_VECTOR_SIZE],
        ks_hek: [u8; HEK_SIZE],
        ks_header_encoder: SimpleEncoder,
    },
    HeaderSent {
        hs_epoch: u64,
        hs_auth: Authenticator,
        hs_dk: [u8; DECAPSULATION_KEY_SIZE],
        hs_ct1_decoder: SimpleDecoder,
        hs_ek_encoder: SimpleEncoder,
    },
    Ct1Received {
        ct1r_epoch: u64,
        ct1r_auth: Authenticator,
        ct1r_dk: [u8; DECAPSULATION_KEY_SIZE],
        ct1r_ct1: Option<[u8; CT1_SIZE]>,
        ct1r_ek_encoder: SimpleEncoder,
    },
    EkSentCt1Received {
        eksct1r_epoch: u64,
        eksct1r_auth: Authenticator,
        eksct1r_dk: [u8; DECAPSULATION_KEY_SIZE],
        eksct1r_ct1: Option<[u8; CT1_SIZE]>,
        eksct1r_ct2_decoder: SimpleDecoder,
    },
    NoHeaderReceived { nhr_epoch: u64, nhr_auth: Authenticator, nhr_header_decoder: SimpleDecoder },
    HeaderReceived {
        hr_epoch: u64,
        hr_auth: Authenticator,
        hr_ek_seed: [u8; EK_SEED_SIZE],
        hr_hek: [u8; HEK_SIZE],
        hr_ek_decoder: SimpleDecoder,
    },
    Ct1Sampled {
        ct1s_epoch: u64,
        ct1s_auth: Authenticator,
        ct1s_encaps_secret: [u8; ENCAPS_SECRET_SIZE],
        ct1s_ct1: [u8; CT1_SIZE],
        ct1s_hek: [u8; HEK_SIZE],
        ct1s_ek_seed: [u8; EK_SEED_SIZE],
        ct1s_ek_decoder: SimpleDecoder,
        ct1s_ct1_encoder: SimpleEncoder,
    },
    EkReceivedCt1Sampled {
        ekrct1s_epoch: u64,
        ekrct1s_auth: Authenticator,
        ekrct1s_encaps_secret: [u8; ENCAPS_SECRET_SIZE],
        ekrct1s_ek_vector: [u8; EK_VECTOR_SIZE],
        ekrct1s_ek_seed: [u8; EK_SEED_SIZE],
        ekrct1s_ct1: [u8; CT1_SIZE],
        ekrct1s_ct1_encoder: SimpleEncoder,
    },
    Ct1Acknowledged {
        ct1a_epoch: u64,
        ct1a_auth: Authenticator,
        ct1a_encaps_secret: [u8; ENCAPS_SECRET_SIZE],
        ct1a_ct1: [u8; CT1_SIZE],
        ct1a_hek: [u8; HEK_SIZE],
        ct1a_ek_seed: [u8; EK_SEED_SIZE],
        ct1a_ek_decoder: SimpleDecoder,
    },
    Ct2Sampled { ct2s_epoch: u64, ct2s_auth: Authenticator, ct2s_ct2_encoder: SimpleEncoder },
}

/// What a send or receive step returns besides the new state: the message
/// (for a send), the epoch whose chain keys the message uses, and the new
/// output key, if this step produced one.
pub type SendResult<'a> = Result<(SCKAMessage, (u64, Option<SCKAOutputKey>)), &'a str>;

pub type ReceiveResult<'a> = Result<(u64, Option<SCKAOutputKey>), &'a str>;

/// A send step with the state it leads to.
pub type SendStep<'a> = Result<(SCKAMessage, (u64, Option<SCKAOutputKey>), BraidState), &'a str>;

/// A receive step with the state it leads to.
pub type ReceiveStep<'a> = Result<(u64, Option<SCKAOutputKey>, BraidState), &'a str>;

/// The chunks still to be handed out by an encoder.
pub open spec fn enc_view(e: SimpleEncoder) -> Seq<(nat, Seq<u8>)> {
    chunks_view(e.chunks@)
}

/// One step of an encoder: the first chunk leaves, if there is one.
pub open spec fn enc_step(old: SimpleEncoder, new: SimpleEncoder, chunk: Option<Chunk>) -> bool {
    if old.chunks@.len() > 0 {
        chunk == Some(old.chunks@[0]) && new.chunks@ == old.chunks@.drop_first()
    } else {
        chunk is None && new.chunks@ == old.chunks@
    }
}

/// A decoder that expects `size` bytes and holds `received`.
pub open spec fn dec_is(d: SimpleDecoder, size: nat, received: Seq<u8>) -> bool {
    d.message_size == size && d.received@ == received
}

/// Every chunk still held by an encoder is at most `CHUNK_SIZE` bytes.
pub open spec fn enc_ok(e: SimpleEncoder) -> bool {
    forall|i: int| 0 <= i < e.chunks@.len() ==> (#[trigger] e.chunks@[i]).data@.len() <= CHUNK_SIZE
}

/// The encapsulation key header of a compressed key pair: `ek_seed || hek`.
pub open spec fn kp_header(kp: Seq<u8>) -> Seq<u8> {
    kp.subrange(2304, 2368)
}

/// The encapsulation key vector of a compressed key pair.
pub open spec fn kp_ek_vector(kp: Seq<u8>) -> Seq<u8> {
    kp.subrange(1152, 2304)
}

/// The authenticator that stands in the state while a step runs, and stays
/// there when the step fails: a fresh authenticator over a zero key at epoch 1.
pub open spec fn is_fallback_state(s: BraidState, epoch: u64) -> bool {
    s matches BraidState::KeysUnsampled { ku_epoch, ku_auth } && ku_epoch == epoch
        && auth_view(ku_auth) == (
            spec_auth_update(zero_bytes(32), 1, zero_bytes(32)).0,
            Some(spec_auth_update(zero_bytes(32), 1, zero_bytes(32)).1),
        )
}

/// A message at `epoch` of kind `t` carrying `data`.
pub open spec fn msg_is(m: SCKAMessage, epoch: u64, t: Option<SCKAMessageType>, data: Option<Chunk>) -> bool {
    m.epoch == epoch && m.message_type == t && m.data == data
}

/// The MAC of a full ciphertext at `epoch` under an authenticator's MAC key.
pub open spec fn ct_mac(a: Authenticator, epoch: u64, ct: Seq<u8>) -> Seq<u8> {
    spec_hmac_sha256(a.mac_key->0@, mac_ct_data(epoch, ct))
}

/// The MAC of an encapsulation key header at `epoch`.
pub open spec fn hdr_mac(a: Authenticator, epoch: u64, ek_seed: Seq<u8>, hek: Seq<u8>) -> Seq<u8> {
    spec_hmac_sha256(a.mac_key->0@, mac_hdr_data(epoch, ek_seed, hek))
}

/// The authenticator after mixing in `key` at `epoch`.
pub open spec fn auth_updated(old: Authenticator, new: Authenticator, epoch: u64, key: Seq<u8>) -> bool {
    auth_view(new) == (
        spec_auth_update(old.root_key@, epoch, key).0,
        Some(spec_auth_update(old.root_key@, epoch, key).1),
    )
}

impl BraidState {
    /// The epoch of the state.
    pub open spec fn epoch(self) -> u64 {
        match self {
            BraidState::KeysUnsampled { ku_epoch, .. } => ku_epoch,
            BraidState::KeysSampled { ks_epoch, .. } => ks_epoch,
            BraidState::HeaderSent { hs_epoch, .. } => hs_epoch,
            BraidState::Ct1Received { ct1r_epoch, .. } => ct1r_epoch,
            BraidState::EkSentCt1Received { eksct1r_epoch, .. } => eksct1r_epoch,
            BraidState::NoHeaderReceived { nhr_epoch, .. } => nhr_epoch,
            BraidState::HeaderReceived { hr_epoch, .. } => hr_epoch,
            BraidState::Ct1Sampled { ct1s_epoch, .. } => ct1s_epoch,
            BraidState::EkReceivedCt1Sampled { ekrct1s_epoch, .. } => ekrct1s_epoch,
            BraidState::Ct1Acknowledged { ct1a_epoch, .. } => ct1a_epoch,
            BraidState::Ct2Sampled { ct2s_epoch, .. } => ct2s_epoch,
        }
    }

    /// The authenticator of the state.
    pub open spec fn auth(self) -> Authenticator {
        match self {
            BraidState::KeysUnsampled { ku_auth, .. } => ku_auth,
            BraidState::KeysSampled { ks_auth, .. } => ks_auth,
            BraidState::HeaderSent { hs_auth, .. } => hs_auth,
            BraidState::Ct1Received { ct1r_auth, .. } => ct1r_auth,
            BraidState::EkSentCt1Received { eksct1r_auth, .. } => eksct1r_auth,
            BraidState::NoHeaderReceived { nhr_auth, .. } => nhr_auth,
            BraidState::HeaderReceived { hr_auth, .. } => hr_auth,
            BraidState::Ct1Sampled { ct1s_auth, .. } => ct1s_auth,
            BraidState::EkReceivedCt1Sampled { ekrct1s_auth, .. } => ekrct1s_auth,
            BraidState::Ct1Acknowledged { ct1a_auth, .. } => ct1a_auth,
            BraidState::Ct2Sampled { ct2s_auth, .. } => ct2s_auth,
        }
    }

    /// Well-formedness: epochs start at 1, the authenticator always has a
    /// MAC key, every decoder expects the size of what it collects, and a
    /// received first ciphertext is present.
    pub open spec fn wf(self) -> bool {
        &&& self.epoch() >= 1
        &&& self.auth().mac_key is Some
        &&& match self {
            BraidState::KeysSampled { ks_header_encoder, .. } => enc_ok(ks_header_encoder),
            BraidState::HeaderSent { hs_ct1_decoder, hs_ek_encoder, .. } => hs_ct1_decoder.message_size == CT1_SIZE
                && enc_ok(hs_ek_encoder),
            BraidState::Ct1Received { ct1r_ct1, ct1r_ek_encoder, .. } => ct1r_ct1 is Some && enc_ok(ct1r_ek_encoder),
            BraidState::EkSentCt1Received { eksct1r_ct1, eksct1r_ct2_decoder, .. } => eksct1r_ct1 is Some
                && eksct1r_ct2_decoder.message_size == CT2_SIZE + MAC_SIZE,
            BraidState::NoHeaderReceived { nhr_header_decoder, .. } =>
                nhr_header_decoder.message_size == HEADER_SIZE + MAC_SIZE,
            BraidState::HeaderReceived { hr_ek_decoder, .. } => hr_ek_decoder.message_size == EK_VECTOR_SIZE,
            BraidState::Ct1Sampled { ct1s_ek_decoder, ct1s_ct1_encoder, .. } =>
                ct1s_ek_decoder.message_size == EK_VECTOR_SIZE && enc_ok(ct1s_ct1_encoder),
            BraidState::EkReceivedCt1Sampled { ekrct1s_ct1_encoder, .. } => enc_ok(ekrct1s_ct1_encoder),
            BraidState::Ct2Sampled { ct2s_ct2_encoder, .. } => enc_ok(ct2s_ct2_encoder),
            BraidState::Ct1Acknowledged { ct1a_ek_decoder, .. } => ct1a_ek_decoder.message_size == EK_VECTOR_SIZE,
            _ => true,
        }
    }
}

/// The bytes an authenticator takes: its root key, then a tagged optional
/// MAC key.
pub open spec fn auth_size(a: Authenticator) -> int {
    33 + if a.mac_key is Some { 32int } else { 0int }
}

/// The bytes a braid state takes: its epoch, its authenticator, the keys
/// and ciphertexts it holds, and its encoders and decoders.
pub open spec fn braid_size(s: BraidState) -> int {
    match s {
        BraidState::KeysUnsampled { ku_auth, .. } => 8 + auth_size(ku_auth),
        BraidState::KeysSampled { ks_auth, ks_header_encoder, .. } => 8 + auth_size(ks_auth) + DECAPSULATION_KEY_SIZE + EK_SEED_SIZE + EK_VECTOR_SIZE + HEK_SIZE + spec_encoder_size(ks_header_encoder.chunks@),
        BraidState::HeaderSent { hs_auth, hs_ct1_decoder, hs_ek_encoder, .. } => 8 + auth_size(hs_auth) + DECAPSULATION_KEY_SIZE + 32 + hs_ct1_decoder.received@.len() + spec_encoder_size(hs_ek_encoder.chunks@),
        BraidState::Ct1Acknowledged { ct1a_auth, ct1a_ek_decoder, .. } => 8 + auth_size(ct1a_auth) + ENCAPS_SECRET_SIZE + CT1_SIZE + HEK_SIZE + EK_SEED_SIZE + 32 + ct1a_ek_decoder.received@.len(),
        BraidState::Ct1Received { ct1r_auth, ct1r_ek_encoder, .. } => 8 + auth_size(ct1r_auth) + DECAPSULATION_KEY_SIZE + CT1_SIZE + spec_encoder_size(ct1r_ek_encoder.chunks@),
        BraidState::Ct1Sampled { ct1s_auth, ct1s_ek_decoder, ct1s_ct1_encoder, .. } => 8 + auth_size(ct1s_auth) + ENCAPS_SECRET_SIZE + CT1_SIZE + HEK_SIZE + EK_SEED_SIZE + 32 + ct1s_ek_decoder.received@.len() + spec_encoder_size(ct1s_ct1_encoder.chunks@),
        BraidState::Ct2Sampled { ct2s_auth, ct2s_ct2_encoder, .. } => 8 + auth_size(ct2s_auth) + spec_encoder_size(ct2s_ct2_encoder.chunks@),
        BraidState::EkReceivedCt1Sampled { ekrct1s_auth, ekrct1s_ct1_encoder, .. } => 8 + auth_size(ekrct1s_auth) + ENCAPS_SECRET_SIZE + EK_VECTOR_SIZE + EK_SEED_SIZE + CT1_SIZE + spec_encoder_size(ekrct1s_ct1_encoder.chunks@),
        BraidState::EkSentCt1Received { eksct1r_auth, eksct1r_ct2_decoder, .. } => 8 + auth_size(eksct1r_auth) + DECAPSULATION_KEY_SIZE + CT1_SIZE + 32 + eksct1r_ct2_decoder.received@.len(),
        BraidState::HeaderReceived { hr_auth, hr_ek_decoder, .. } => 8 + auth_size(hr_auth) + EK_SEED_SIZE + HEK_SIZE + 32 + hr_ek_decoder.received@.len(),
        BraidState::NoHeaderReceived { nhr_auth, nhr_header_decoder, .. } => 8 + auth_size(nhr_auth) + 32 + nhr_header_decoder.received@.len(),
    }
}

/// The name of a braid state's kind.
pub open spec fn state_name(s: BraidState) -> &'static str {
    match s {
        BraidState::KeysUnsampled { .. } => "KeysUnsampled",
        BraidState::KeysSampled { .. } => "KeysSampled",
        BraidState::HeaderSent { .. } => "HeaderSent",
        BraidState::Ct1Received { .. } => "Ct1Received",
        BraidState::EkSentCt1Received { .. } => "EkSentCt1Received",
        BraidState::NoHeaderReceived { .. } => "NoHeaderReceived",
        BraidState::HeaderReceived { .. } => "HeaderReceived",
        BraidState::Ct1Sampled { .. } => "Ct1Sampled",
        BraidState::EkReceivedCt1Sampled { .. } => "EkReceivedCt1Sampled",
        BraidState::Ct1Acknowledged { .. } => "Ct1Acknowledged",
        BraidState::Ct2Sampled { .. } => "Ct2Sampled",
    }
}

/// How a braid state reads: its kind and its epoch, as in
/// `Ct2Sampled(epoch=1)`.
pub open spec fn describe_bytes(s: BraidState) -> Seq<u8> {
    state_name(s).spec_bytes() + "(epoch=".spec_bytes() + spec_decimal(s.epoch() as nat) + ")".spec_bytes()
}

/// A braid state takes a non-negative number of bytes.
pub proof fn lemma_braid_size_nonneg(s: BraidState)
    ensures
        braid_size(s) >= 0,
{
}

impl BraidState {
    /// The state's kind and epoch, as in `Ct2Sampled(epoch=1)`.
    pub fn describe(&self) -> (res: String)
        ensures
            res@ == ascii_chars(describe_bytes(*self)),
    {
        proof {
            reveal_strlit("KeysUnsampled");
            reveal_strlit("KeysSampled");
            reveal_strlit("HeaderSent");
            reveal_strlit("Ct1Received");
            reveal_strlit("EkSentCt1Received");
            reveal_strlit("NoHeaderReceived");
            reveal_strlit("HeaderReceived");
            reveal_strlit("Ct1Sampled");
            reveal_strlit("EkReceivedCt1Sampled");
            reveal_strlit("Ct1Acknowledged");
            reveal_strlit("Ct2Sampled");
            reveal_strlit("(epoch=");
            reveal_strlit(")");
            lemma_ascii_literal(state_name(*self));
            lemma_ascii_literal("(epoch=");
            lemma_ascii_literal(")");
            lemma_decimal_ascii(self.epoch() as nat);
        }
        let name: &str = match self {
            BraidState::KeysUnsampled { .. } => "KeysUnsampled",
            BraidState::KeysSampled { .. } => "KeysSampled",
            BraidState::HeaderSent { .. } => "HeaderSent",
            BraidState::Ct1Received { .. } => "Ct1Received",
            BraidState::EkSentCt1Received { .. } => "EkSentCt1Received",
            BraidState::NoHeaderReceived { .. } => "NoHeaderReceived",
            BraidState::HeaderReceived { .. } => "HeaderReceived",
            BraidState::Ct1Sampled { .. } => "Ct1Sampled",
            BraidState::EkReceivedCt1Sampled { .. } => "EkReceivedCt1Sampled",
            BraidState::Ct1Acknowledged { .. } => "Ct1Acknowledged",
            BraidState::Ct2Sampled { .. } => "Ct2Sampled",
        };
        let mut out: Vec<u8> = Vec::new();
        append_bytes(&mut out, name.as_bytes());
        append_bytes(&mut out, "(epoch=".as_bytes());
        push_decimal(self.get_epoch(), &mut out);
        append_bytes(&mut out, ")".as_bytes());
        assert(out@ =~= describe_bytes(*self));
        ascii_string(out)
    }

    /// Approximate memory footprint in bytes.
    pub fn state_size(&self) -> (res: usize)
        requires
            braid_size(*self) <= usize::MAX,
        ensures
            res == braid_size(*self),
    {
        match self {
            BraidState::KeysUnsampled { ku_auth, .. } => {
                let mut total: usize = 8;
                total = total + ku_auth.size();
                total
            },
            BraidState::KeysSampled { ks_auth, ks_header_encoder, .. } => {
                let mut total: usize = 8;
                total = total + ks_auth.size();
                total = total + DECAPSULATION_KEY_SIZE;
                total = total + EK_SEED_SIZE;
                total = total + EK_VECTOR_SIZE;
                total = total + HEK_SIZE;
                total = total + ks_header_encoder.size();
                total
            },
            BraidState::HeaderSent { hs_auth, hs_ct1_decoder, hs_ek_encoder, .. } => {
                let mut total: usize = 8;
                total = total + hs_auth.size();
                total = total + DECAPSULATION_KEY_SIZE;
                total = total + hs_ct1_decoder.size();
                total = total + hs_ek_encoder.size();
                total
            },
            BraidState::Ct1Acknowledged { ct1a_auth, ct1a_ek_decoder, .. } => {
                let mut total: usize = 8;
                total = total + ct1a_auth.size();
                total = total + ENCAPS_SECRET_SIZE;
                total = total + CT1_SIZE;
                total = total + HEK_SIZE;
                total = total + EK_SEED_SIZE;
                total = total + ct1a_ek_decoder.size();
                total
            },
            BraidState::Ct1Received { ct1r_auth, ct1r_ek_encoder, .. } => {
                let mut total: usize = 8;
                total = total + ct1r_auth.size();
                total = total + DECAPSULATION_KEY_SIZE;
                total = total + CT1_SIZE;
                total = total + ct1r_ek_encoder.size();
                total
            },
            BraidState::Ct1Sampled { ct1s_auth, ct1s_ek_decoder, ct1s_ct1_encoder, .. } => {
                let mut total: usize = 8;
                total = total + ct1s_auth.size();
                total = total + ENCAPS_SECRET_SIZE;
                total = total + CT1_SIZE;
                total = total + HEK_SIZE;
                total = total + EK_SEED_SIZE;
                total = total + ct1s_ek_decoder.size();
                total = total + ct1s_ct1_encoder.size();
                total
            },
            BraidState::Ct2Sampled { ct2s_auth, ct2s_ct2_encoder, .. } => {
                let mut total: usize = 8;
                total = total + ct2s_auth.size();
                total = total + ct2s_ct2_encoder.size();
                total
            },
            BraidState::EkReceivedCt1Sampled { ekrct1s_auth, ekrct1s_ct1_encoder, .. } => {
                let mut total: usize = 8;
                total = total + ekrct1s_auth.size();
                total = total + ENCAPS_SECRET_SIZE;
                total = total + EK_VECTOR_SIZE;
                total = total + EK_SEED_SIZE;
                total = total + CT1_SIZE;
                total = total + ekrct1s_ct1_encoder.size();
                total
            },
            BraidState::EkSentCt1Received { eksct1r_auth, eksct1r_ct2_decoder, .. } => {
                let mut total: usize = 8;
                total = total + eksct1r_auth.size();
                total = total + DECAPSULATION_KEY_SIZE;
                total = total + CT1_SIZE;
                total = total + eksct1r_ct2_decoder.size();
                total
            },
            BraidState::HeaderReceived { hr_auth, hr_ek_decoder, .. } => {
                let mut total: usize = 8;
                total = total + hr_auth.size();
                total = total + EK_SEED_SIZE;
                total = total + HEK_SIZE;
                total = total + hr_ek_decoder.size();
                total
            },
            BraidState::NoHeaderReceived { nhr_auth, nhr_header_decoder, .. } => {
                let mut total: usize = 8;
                total = total + nhr_auth.size();
                total = total + nhr_header_decoder.size();
                total
            },
        }
    }
}

/// `c` holds what the braid state `s` holds: the same state with the same
/// epoch, authenticator and keys, and encoders and decoders with the same
/// contents.
pub open spec fn braid_copy(c: BraidState, s: BraidState) -> bool {
    match s {
        BraidState::KeysUnsampled { ku_epoch, ku_auth } => c == s,
        BraidState::KeysSampled { ks_epoch, ks_auth, ks_dk, ks_ek_seed, ks_ek_vector, ks_hek, ks_header_encoder } =>
            c matches BraidState::KeysSampled { ks_epoch: e, ks_auth: a, ks_dk: d, ks_ek_seed: sd, ks_ek_vector: v, ks_hek: h,
                ks_header_encoder: enc }
            && e == ks_epoch && a == ks_auth && d == ks_dk && sd == ks_ek_seed && v == ks_ek_vector && h == ks_hek
            && enc_view(enc) == enc_view(ks_header_encoder),
        BraidState::HeaderSent { hs_epoch, hs_auth, hs_dk, hs_ct1_decoder, hs_ek_encoder } =>
            c matches BraidState::HeaderSent { hs_epoch: e, hs_auth: a, hs_dk: d, hs_ct1_decoder: dec, hs_ek_encoder: enc }
            && e == hs_epoch && a == hs_auth && d == hs_dk && dec_is(dec, hs_ct1_decoder.message_size as nat, hs_ct1_decoder.received@)
            && enc_view(enc) == enc_view(hs_ek_encoder),
        BraidState::Ct1Received { ct1r_epoch, ct1r_auth, ct1r_dk, ct1r_ct1, ct1r_ek_encoder } =>
            c matches BraidState::Ct1Received { ct1r_epoch: e, ct1r_auth: a, ct1r_dk: d, ct1r_ct1: x, ct1r_ek_encoder: enc }
            && e == ct1r_epoch && a == ct1r_auth && d == ct1r_dk && x == ct1r_ct1 && enc_view(enc) == enc_view(ct1r_ek_encoder),
        BraidState::EkSentCt1Received { eksct1r_epoch, eksct1r_auth, eksct1r_dk, eksct1r_ct1, eksct1r_ct2_decoder } =>
            c matches BraidState::EkSentCt1Received { eksct1r_epoch: e, eksct1r_auth: a, eksct1r_dk: d, eksct1r_ct1: x,
                eksct1r_ct2_decoder: dec }
            && e == eksct1r_epoch && a == eksct1r_auth && d == eksct1r_dk && x == eksct1r_ct1
            && dec_is(dec, eksct1r_ct2_decoder.message_size as nat, eksct1r_ct2_decoder.received@),
        BraidState::NoHeaderReceived { nhr_epoch, nhr_auth, nhr_header_decoder } =>
            c matches BraidState::NoHeaderReceived { nhr_epoch: e, nhr_auth: a, nhr_header_decoder: dec }
            && e == nhr_epoch && a == nhr_auth && dec_is(dec, nhr_header_decoder.message_size as nat, nhr_header_decoder.received@),
        BraidState::HeaderReceived { hr_epoch, hr_auth, hr_ek_seed, hr_hek, hr_ek_decoder } =>
            c matches BraidState::HeaderReceived { hr_epoch: e, hr_auth: a, hr_ek_seed: sd, hr_hek: h, hr_ek_decoder: dec }
            && e == hr_epoch && a == hr_auth && sd == hr_ek_seed && h == hr_hek
            && dec_is(dec, hr_ek_decoder.message_size as nat, hr_ek_decoder.received@),
        BraidState::Ct1Sampled { ct1s_epoch, ct1s_auth, ct1s_encaps_secret, ct1s_ct1, ct1s_hek, ct1s_ek_seed, ct1s_ek_decoder, ct1s_ct1_encoder } =>
            c matches BraidState::Ct1Sampled { ct1s_epoch: e, ct1s_auth: a, ct1s_encaps_secret: es, ct1s_ct1: x, ct1s_hek: h,
                ct1s_ek_seed: sd, ct1s_ek_decoder: dec, ct1s_ct1_encoder: enc }
            && e == ct1s_epoch && a == ct1s_auth && es == ct1s_encaps_secret && x == ct1s_ct1 && h == ct1s_hek && sd == ct1s_ek_seed
            && dec_is(dec, ct1s_ek_decoder.message_size as nat, ct1s_ek_decoder.received@)
            && enc_view(enc) == enc_view(ct1s_ct1_encoder),
        BraidState::EkReceivedCt1Sampled { ekrct1s_epoch, ekrct1s_auth, ekrct1s_encaps_secret, ekrct1s_ek_vector, ekrct1s_ek_seed, ekrct1s_ct1, ekrct1s_ct1_encoder } =>
            c matches BraidState::EkReceivedCt1Sampled { ekrct1s_epoch: e, ekrct1s_auth: a, ekrct1s_encaps_secret: es,
                ekrct1s_ek_vector: v, ekrct1s_ek_seed: sd, ekrct1s_ct1: x, ekrct1s_ct1_encoder: enc }
            && e == ekrct1s_epoch && a == ekrct1s_auth && es == ekrct1s_encaps_secret && v == ekrct1s_ek_vector
            && sd == ekrct1s_ek_seed && x == ekrct1s_ct1 && enc_view(enc) == enc_view(ekrct1s_ct1_encoder),
        BraidState::Ct1Acknowledged { ct1a_epoch, ct1a_auth, ct1a_encaps_secret, ct1a_ct1, ct1a_hek, ct1a_ek_seed, ct1a_ek_decoder } =>
            c matches BraidState::Ct1Acknowledged { ct1a_epoch: e, ct1a_auth: a, ct1a_encaps_secret: es, ct1a_ct1: x,
                ct1a_hek: h, ct1a_ek_seed: sd, ct1a_ek_decoder: dec }
            && e == ct1a_epoch && a == ct1a_auth && es == ct1a_encaps_secret && x == ct1a_ct1 && h == ct1a_hek && sd == ct1a_ek_seed
            && dec_is(dec, ct1a_ek_decoder.message_size as nat, ct1a_ek_decoder.received@),
        BraidState::Ct2Sampled { ct2s_epoch, ct2s_auth, ct2s_ct2_encoder } =>
            c matches BraidState::Ct2Sampled { ct2s_epoch: e, ct2s_auth: a, ct2s_ct2_encoder: enc }
            && e == ct2s_epoch && a == ct2s_auth && enc_view(enc) == enc_view(ct2s_ct2_encoder),
    }
}

impl Clone for BraidState {
    fn clone(&self) -> (res: Self)
        ensures
            res.epoch() == self.epoch(),
            res.auth() == self.auth(),
            self.wf() ==> res.wf(),
            braid_copy(res, *self),
    {
        match self {
            BraidState::KeysUnsampled { ku_epoch, ku_auth } => BraidState::KeysUnsampled {
                ku_epoch: *ku_epoch,
                ku_auth: *ku_auth,
            },
            BraidState::KeysSampled { ks_epoch, ks_auth, ks_dk, ks_ek_seed, ks_ek_vector, ks_hek, ks_header_encoder } => BraidState::KeysSampled {
                ks_epoch: *ks_epoch,
                ks_auth: *ks_auth,
                ks_dk: *ks_dk,
                ks_ek_seed: *ks_ek_seed,
                ks_ek_vector: *ks_ek_vector,
                ks_hek: *ks_hek,
                ks_header_encoder: ks_header_encoder.clone(),
            },
            BraidState::HeaderSent { hs_epoch, hs_auth, hs_dk, hs_ct1_decoder, hs_ek_encoder } => BraidState::HeaderSent {
                hs_epoch: *hs_epoch,
                hs_auth: *hs_auth,
                hs_dk: *hs_dk,
                hs_ct1_decoder: hs_ct1_decoder.clone(),
                hs_ek_encoder: hs_ek_encoder.clone(),
            },
            BraidState::Ct1Received { ct1r_epoch, ct1r_auth, ct1r_dk, ct1r_ct1, ct1r_ek_encoder } => BraidState::Ct1Received {
                ct1r_epoch: *ct1r_epoch,
                ct1r_auth: *ct1r_auth,
                ct1r_dk: *ct1r_dk,
                ct1r_ct1: *ct1r_ct1,
                ct1r_ek_encoder: ct1r_ek_encoder.clone(),
            },
            BraidState::EkSentCt1Received { eksct1r_epoch, eksct1r_auth, eksct1r_dk, eksct1r_ct1, eksct1r_ct2_decoder } => BraidState::EkSentCt1Received {
                eksct1r_epoch: *eksct1r_epoch,
                eksct1r_auth: *eksct1r_auth,
                eksct1r_dk: *eksct1r_dk,
                eksct1r_ct1: *eksct1r_ct1,
                eksct1r_ct2_decoder: eksct1r_ct2_decoder.clone(),
            },
            BraidState::NoHeaderReceived { nhr_epoch, nhr_auth, nhr_header_decoder } => BraidState::NoHeaderReceived {
                nhr_epoch: *nhr_epoch,
                nhr_auth: *nhr_auth,
                nhr_header_decoder: nhr_header_decoder.clone(),
            },
            BraidState::HeaderReceived { hr_epoch, hr_auth, hr_ek_seed, hr_hek, hr_ek_decoder } => BraidState::HeaderReceived {
                hr_epoch: *hr_epoch,
                hr_auth: *hr_auth,
                hr_ek_seed: *hr_ek_seed,
                hr_hek: *hr_hek,
                hr_ek_decoder: hr_ek_decoder.clone(),
            },
            BraidState::Ct1Sampled { ct1s_epoch, ct1s_auth, ct1s_encaps_secret, ct1s_ct1, ct1s_hek, ct1s_ek_seed, ct1s_ek_decoder, ct1s_ct1_encoder } => BraidState::Ct1Sampled {
                ct1s_epoch: *ct1s_epoch,
                ct1s_auth: *ct1s_auth,
                ct1s_encaps_secret: *ct1s_encaps_secret,
                ct1s_ct1: *ct1s_ct1,
                ct1s_hek: *ct1s_hek,
                ct1s_ek_seed: *ct1s_ek_seed,
                ct1s_ek_decoder: ct1s_ek_decoder.clone(),
                ct1s_ct1_encoder: ct1s_ct1_encoder.clone(),
            },
            BraidState::EkReceivedCt1Sampled { ekrct1s_epoch, ekrct1s_auth, ekrct1s_encaps_secret, ekrct1s_ek_vector, ekrct1s_ek_seed, ekrct1s_ct1, ekrct1s_ct1_encoder } => BraidState::EkReceivedCt1Sampled {
                ekrct1s_epoch: *ekrct1s_epoch,
                ekrct1s_auth: *ekrct1s_auth,
                ekrct1s_encaps_secret: *ekrct1s_encaps_secret,
                ekrct1s_ek_vector: *ekrct1s_ek_vector,
                ekrct1s_ek_seed: *ekrct1s_ek_seed,
                ekrct1s_ct1: *ekrct1s_ct1,
                ekrct1s_ct1_encoder: ekrct1s_ct1_encoder.clone(),
            },
            BraidState::Ct1Acknowledged { ct1a_epoch, ct1a_auth, ct1a_encaps_secret, ct1a_ct1, ct1a_hek, ct1a_ek_seed, ct1a_ek_decoder } => BraidState::Ct1Acknowledged {
                ct1a_epoch: *ct1a_epoch,
                ct1a_auth: *ct1a_auth,
                ct1a_encaps_secret: *ct1a_encaps_secret,
                ct1a_ct1: *ct1a_ct1,
                ct1a_hek: *ct1a_hek,
                ct1a_ek_seed: *ct1a_ek_seed,
                ct1a_ek_decoder: ct1a_ek_decoder.clone(),
            },
            BraidState::Ct2Sampled { ct2s_epoch, ct2s_auth, ct2s_ct2_encoder } => BraidState::Ct2Sampled {
                ct2s_epoch: *ct2s_epoch,
                ct2s_auth: *ct2s_auth,
                ct2s_ct2_encoder: ct2s_ct2_encoder.clone(),
            },
        }
    }
}

impl Clone for MlKemBraid {
    fn clone(&self) -> (res: Self)
        ensures
            self.state.wf() ==> res.state.wf(),
            res.state.epoch() == self.state.epoch(),
            braid_copy(res.state, self.state),
    {
        MlKemBraid { state: self.state.clone() }
    }
}

/// A non-empty byte string yields at least one chunk, the first of which
/// is its first `chunk_size` bytes (or all of them).
proof fn lemma_first_chunk(data: Seq<u8>, cs: nat, i: nat)
    requires
        cs > 0,
        data.len() > 0,
    ensures
        spec_chunks(data, cs, i).len() > 0,
        spec_chunks(data, cs, i)[0] == (i, if data.len() <= cs { data } else { data.take(cs as int) }),
{
}

/// Sending from KeysUnsampled, with the compressed key pair `kp` that was
/// sampled: the header (`ek_seed || hek`) and its MAC are cut into chunks,
/// the first of which leaves; the state keeps the key pair and the rest.
pub open spec fn post_send_keys_unsampled<'a>(epoch: u64, auth: Authenticator, kp: Seq<u8>, r: SendStep<'a>) -> bool {
    let ek_seed = kp_header(kp).subrange(0, 32);
    let hek = kp_header(kp).subrange(32, 64);
    let chunks = spec_chunks(kp_header(kp) + hdr_mac(auth, epoch, ek_seed, hek), CHUNK_SIZE as nat, 0);
    &&& r matches Ok((msg, (se, ok), s))
    &&& se == epoch - 1
    &&& ok is None
    &&& hdr_mac(auth, epoch, ek_seed, hek).len() == MAC_SIZE
    &&& msg.epoch == epoch && msg.message_type == Some(SCKAMessageType::Hdr)
    &&& msg.data matches Some(c) && c.view_pair() == chunks[0]
    &&& s matches BraidState::KeysSampled {
        ks_epoch, ks_auth, ks_dk, ks_ek_seed, ks_ek_vector, ks_hek, ks_header_encoder,
    } && ks_epoch == epoch && ks_auth == auth && ks_dk@ == kp && ks_ek_seed@ == ek_seed && ks_hek@ == hek
        && ks_ek_vector@ == kp_ek_vector(kp) && enc_view(ks_header_encoder) == chunks.drop_first()
}

/// Sending from HeaderReceived with the encapsulation randomness `rnd`: the
/// first half of an encapsulation to the received header gives the first
/// ciphertext and the KEM secret, whose derived key is this epoch's output
/// key and is mixed into the authenticator; the first chunk of the first
/// ciphertext leaves.
pub open spec fn post_send_header_received<'a>(
    epoch: u64,
    auth: Authenticator,
    ek_seed: [u8; EK_SEED_SIZE],
    hek: [u8; HEK_SIZE],
    dec: SimpleDecoder,
    rnd: Seq<u8>,
    r: SendStep<'a>,
) -> bool {
    let enc1 = spec_ml_kem_768_encapsulate1(ek_seed@ + hek@, rnd);
    let ss = spec_kdf_ok(enc1.2, epoch);
    let chunks = spec_chunks(enc1.1, CHUNK_SIZE as nat, 0);
    &&& r matches Ok((msg, (se, ok), s))
    &&& se == epoch - 1
    &&& ok matches Some(k) && k.epoch == epoch && k.key@ == ss
    &&& msg.epoch == epoch && msg.message_type == Some(SCKAMessageType::Ct1)
    &&& msg.data matches Some(c) && c.view_pair() == chunks[0]
    &&& s matches BraidState::Ct1Sampled {
        ct1s_epoch, ct1s_auth, ct1s_encaps_secret, ct1s_ct1, ct1s_hek, ct1s_ek_seed, ct1s_ek_decoder, ct1s_ct1_encoder,
    } && ct1s_epoch == epoch && auth_updated(auth, ct1s_auth, epoch, ss) && ct1s_encaps_secret@ == enc1.0
        && ct1s_ct1@ == enc1.1 && ct1s_hek == hek && ct1s_ek_seed == ek_seed && ct1s_ek_decoder == dec
        && enc_view(ct1s_ct1_encoder) == chunks.drop_first()
}

/// A send that hands out the next chunk of an encoder, if any, as a message
/// of kind `t`, and leaves the state as `expected` with the encoder advanced.
pub open spec fn post_send_chunk<'a>(
    epoch: u64,
    t: SCKAMessageType,
    enc: SimpleEncoder,
    enc2: SimpleEncoder,
    expected: BraidState,
    r: SendStep<'a>,
) -> bool {
    &&& r matches Ok((msg, (se, ok), s))
    &&& se == epoch - 1
    &&& ok is None
    &&& msg.epoch == epoch && msg.message_type == Some(t)
    &&& enc_step(enc, enc2, msg.data)
    &&& s == expected
}

/// A send with nothing to say: an empty message, the state unchanged.
pub open spec fn post_send_nothing<'a>(old: BraidState, r: SendStep<'a>) -> bool {
    &&& r matches Ok((msg, (se, ok), s))
    &&& se == old.epoch() - 1
    &&& ok is None
    &&& msg_is(msg, old.epoch(), None, None)
    &&& s == old
}

/// The initiator's braid for the shared secret `ss`: epoch 1, keys not yet
/// sampled, an authenticator seeded with `ss`.
pub open spec fn is_initiator_braid(b: MlKemBraid, ss: Seq<u8>) -> bool {
    b.state matches BraidState::KeysUnsampled { ku_epoch, ku_auth } && ku_epoch == 1
        && auth_view(ku_auth) == (spec_auth_update(zero_bytes(32), 1, ss).0, Some(spec_auth_update(zero_bytes(32), 1, ss).1))
}

/// The responder's braid for the shared secret `ss`: epoch 1, waiting for
/// a header, an authenticator seeded with `ss`.
pub open spec fn is_responder_braid(b: MlKemBraid, ss: Seq<u8>) -> bool {
    b.state matches BraidState::NoHeaderReceived { nhr_epoch, nhr_auth, nhr_header_decoder } && nhr_epoch == 1
        && auth_view(nhr_auth) == (spec_auth_update(zero_bytes(32), 1, ss).0, Some(spec_auth_update(zero_bytes(32), 1, ss).1))
        && dec_is(nhr_header_decoder, (HEADER_SIZE + MAC_SIZE) as nat, seq![])
}

/// What one send step does, for each state.
pub open spec fn send_step_post<'a>(old: BraidState, r: SendStep<'a>) -> bool {
    match old {
        BraidState::KeysUnsampled { ku_epoch, ku_auth } => exists|seed: Seq<u8>|
            seed.len() == 64 && #[trigger] post_send_keys_unsampled(
                ku_epoch, ku_auth, spec_ml_kem_768_compressed_key_pair(seed), r),
        BraidState::KeysSampled { ks_epoch, ks_auth, ks_dk, ks_ek_seed, ks_ek_vector, ks_hek, ks_header_encoder } =>
            exists|enc2: SimpleEncoder| #[trigger] post_send_chunk(ks_epoch, SCKAMessageType::Hdr, ks_header_encoder, enc2,
                BraidState::KeysSampled { ks_epoch, ks_auth, ks_dk, ks_ek_seed, ks_ek_vector, ks_hek, ks_header_encoder: enc2 }, r),
        BraidState::HeaderSent { hs_epoch, hs_auth, hs_dk, hs_ct1_decoder, hs_ek_encoder } =>
            if hs_ek_encoder.chunks@.len() > 0 {
                exists|enc2: SimpleEncoder| #[trigger] post_send_chunk(hs_epoch, SCKAMessageType::Ek, hs_ek_encoder, enc2,
                    BraidState::HeaderSent { hs_epoch, hs_auth, hs_dk, hs_ct1_decoder, hs_ek_encoder: enc2 }, r)
            } else {
                r is Err
            },
        BraidState::Ct1Received { ct1r_epoch, ct1r_auth, ct1r_dk, ct1r_ct1, ct1r_ek_encoder } =>
            exists|enc2: SimpleEncoder| #[trigger] post_send_chunk(ct1r_epoch, SCKAMessageType::EkCt1Ack, ct1r_ek_encoder, enc2,
                BraidState::Ct1Received { ct1r_epoch, ct1r_auth, ct1r_dk, ct1r_ct1, ct1r_ek_encoder: enc2 }, r),
        BraidState::EkSentCt1Received { .. } => post_send_nothing(old, r),
        BraidState::NoHeaderReceived { .. } => post_send_nothing(old, r),
        BraidState::HeaderReceived { hr_epoch, hr_auth, hr_ek_seed, hr_hek, hr_ek_decoder } => exists|rnd: Seq<u8>|
            rnd.len() == 32 && #[trigger] post_send_header_received(
                hr_epoch, hr_auth, hr_ek_seed, hr_hek, hr_ek_decoder, rnd, r),
        BraidState::Ct1Sampled {
            ct1s_epoch, ct1s_auth, ct1s_encaps_secret, ct1s_ct1, ct1s_hek, ct1s_ek_seed, ct1s_ek_decoder, ct1s_ct1_encoder,
        } => exists|enc2: SimpleEncoder| #[trigger] post_send_chunk(ct1s_epoch, SCKAMessageType::Ct1, ct1s_ct1_encoder, enc2,
            BraidState::Ct1Sampled {
                ct1s_epoch, ct1s_auth, ct1s_encaps_secret, ct1s_ct1, ct1s_hek, ct1s_ek_seed, ct1s_ek_decoder,
                ct1s_ct1_encoder: enc2,
            }, r),
        BraidState::EkReceivedCt1Sampled {
            ekrct1s_epoch, ekrct1s_auth, ekrct1s_encaps_secret, ekrct1s_ek_vector, ekrct1s_ek_seed, ekrct1s_ct1,
            ekrct1s_ct1_encoder,
        } => if ekrct1s_ct1_encoder.chunks@.len() > 0 {
            exists|enc2: SimpleEncoder| #[trigger] post_send_chunk(ekrct1s_epoch, SCKAMessageType::Ct1, ekrct1s_ct1_encoder, enc2,
                BraidState::EkReceivedCt1Sampled {
                    ekrct1s_epoch, ekrct1s_auth, ekrct1s_encaps_secret, ekrct1s_ek_vector, ekrct1s_ek_seed, ekrct1s_ct1,
                    ekrct1s_ct1_encoder: enc2,
                }, r)
        } else {
            r is Err
        },
        BraidState::Ct1Acknowledged { .. } => post_send_nothing(old, r),
        BraidState::Ct2Sampled { ct2s_epoch, ct2s_auth, ct2s_ct2_encoder } =>
            exists|enc2: SimpleEncoder| #[trigger] post_send_chunk(ct2s_epoch, SCKAMessageType::Ct2, ct2s_ct2_encoder, enc2,
                BraidState::Ct2Sampled { ct2s_epoch, ct2s_auth, ct2s_ct2_encoder: enc2 }, r),
    }
}

/// What `send` does: the step's result, and on failure the fallback state
/// (epoch 20000) stays behind.
pub open spec fn send_post<'a>(old: BraidState, new: BraidState, res: SendResult<'a>) -> bool {
    match res {
        Ok((msg, info)) => send_step_post(old, Ok((msg, info, new))),
        Err(e) => send_step_post(old, Err(e)) && is_fallback_state(new, 20000),
    }
}

/// The next chunk of an encoder, if there is one.
fn next_chunk_opt(enc: &mut SimpleEncoder) -> (c: Option<Chunk>)
    ensures
        enc_step(*old(enc), *final(enc), c),
{
    match enc.next_chunk() {
        Ok(c) => Some(c),
        Err(_) => None,
    }
}

fn send_keys_unsampled<'a>(epoch: u64, auth: Authenticator) -> (r: SendStep<'a>)
    requires
        epoch >= 1,
        auth.mac_key is Some,
    ensures
        exists|seed: Seq<u8>| seed.len() == 64 && #[trigger] post_send_keys_unsampled(
            epoch, auth, spec_ml_kem_768_compressed_key_pair(seed), r),
        r matches Ok((msg, _, s)) ==> s.wf() && (msg.data matches Some(c) ==> c.data@.len() <= CHUNK_SIZE),
{
    let mut auth = auth;
    let (dk, header, ek_vector) = libcrux_ml_kem_key_pair_compressed_generate();
    let ghost seed = choose|seed: Seq<u8>| seed.len() == 64 && {
        let kp = #[trigger] spec_ml_kem_768_compressed_key_pair(seed);
        &&& dk@ == kp
        &&& header@ == kp.subrange(2304, 2368)
        &&& ek_vector@ == kp.subrange(1152, 2304)
    };
    let ghost kp = spec_ml_kem_768_compressed_key_pair(seed);
    let ek_seed = extract_chunk::<EK_SEED_SIZE>(&header, 0);
    let hek = extract_chunk::<HEK_SIZE>(&header, EK_SEED_SIZE);
    let ml_kem_header = MlKemHeader { ek_seed, hek };
    let mac = match auth.mac_hdr(epoch, ml_kem_header) {
        Ok(mac) => mac,
        Err(e) => return Err(e),
    };
    let concat_header_mac: [u8; 96] = concat(header, mac);
    let mut header_encoder = SimpleEncoder::new(&concat_header_mac, CHUNK_SIZE);
    proof {
        lemma_first_chunk(concat_header_mac@, CHUNK_SIZE as nat, 0);
    }
    let ghost enc0 = header_encoder;
    let chunk = match header_encoder.next_chunk() {
        Ok(chunk) => chunk,
        Err(e) => return Err(e),
    };
    proof {
        assert(enc_view(header_encoder) =~= enc_view(enc0).drop_first());
    }
    let msg = SCKAMessage { epoch, message_type: Some(SCKAMessageType::Hdr), data: Some(chunk) };
    let state = BraidState::KeysSampled {
        ks_epoch: epoch,
        ks_auth: auth,
        ks_dk: dk,
        ks_ek_seed: ek_seed,
        ks_ek_vector: ek_vector,
        ks_hek: hek,
        ks_header_encoder: header_encoder,
    };
    let r: SendStep<'a> = Ok((msg, (epoch - 1, None), state));
    assert(post_send_keys_unsampled(epoch, auth, kp, r));
    r
}

fn send_header_received<'a>(
    epoch: u64,
    auth: Authenticator,
    ek_seed: [u8; EK_SEED_SIZE],
    hek: [u8; HEK_SIZE],
    ek_decoder: SimpleDecoder,
) -> (r: SendStep<'a>)
    requires
        epoch >= 1,
    ensures
        exists|rnd: Seq<u8>| rnd.len() == 32 && #[trigger] post_send_header_received(
            epoch, auth, ek_seed, hek, ek_decoder, rnd, r),
        r matches Ok((_, _, s)) && s.auth().mac_key is Some,
        r matches Ok((msg, _, s)) ==> (msg.data matches Some(c) ==> c.data@.len() <= CHUNK_SIZE)
            && (s matches BraidState::Ct1Sampled { ct1s_ct1_encoder, .. } && enc_ok(ct1s_ct1_encoder)),
{
    let randomness = make_randomness::<32>();
    let hdr: [u8; 64] = concat(ek_seed, hek);
    let (encaps_secret, ct1, ss) = libcrux_ml_kem_encapsulate_1(&hdr, randomness);
    let ss = Authenticator::kdf_ok(ss, epoch);
    let mut auth = auth;
    let ghost auth0 = auth;
    match auth.update_auth_state(epoch, &ss) {
        Ok(()) => {},
        Err(e) => return Err(e),
    }
    let mut ct1_encoder = SimpleEncoder::new(&ct1, CHUNK_SIZE);
    proof {
        lemma_first_chunk(ct1@, CHUNK_SIZE as nat, 0);
    }
    let ghost enc0 = ct1_encoder;
    let chunk = match ct1_encoder.next_chunk() {
        Ok(chunk) => chunk,
        Err(e) => return Err(e),
    };
    proof {
        assert(enc_view(ct1_encoder) =~= enc_view(enc0).drop_first());
    }
    let msg = SCKAMessage { epoch, message_type: Some(SCKAMessageType::Ct1), data: Some(chunk) };
    let state = BraidState::Ct1Sampled {
        ct1s_epoch: epoch,
        ct1s_auth: auth,
        ct1s_encaps_secret: encaps_secret,
        ct1s_ct1: ct1,
        ct1s_hek: hek,
        ct1s_ek_seed: ek_seed,
        ct1s_ek_decoder: ek_decoder,
        ct1s_ct1_encoder: ct1_encoder,
    };
    let output_key = SCKAOutputKey { epoch, key: ss };
    let r: SendStep<'a> = Ok((msg, (epoch - 1, Some(output_key)), state));
    assert(post_send_header_received(epoch, auth0, ek_seed, hek, ek_decoder, randomness@, r));
    r
}

impl MlKemBraid {
    /// The party that samples the first key pair: epoch 1, authenticator
    /// seeded with the shared secret.
    pub fn init_initiator(ss: &[u8; SHARED_SECRET_SIZE]) -> (res: Self)
        ensures
            is_initiator_braid(res, ss@),
            res.state.wf(),
    {
        let epoch: u64 = 1;
        let auth = Authenticator::new(epoch, ss);
        Self { state: BraidState::KeysUnsampled { ku_epoch: epoch, ku_auth: auth } }
    }

    /// The party that waits for the first header: epoch 1, authenticator
    /// seeded with the shared secret, an empty header decoder.
    pub fn init_responder(ss: &[u8; SHARED_SECRET_SIZE]) -> (res: Self)
        ensures
            is_responder_braid(res, ss@),
            res.state.wf(),
    {
        let epoch: u64 = 1;
        let auth = Authenticator::new(epoch, ss);
        let header_decoder = SimpleDecoder::new(HEADER_SIZE + MAC_SIZE);
        Self {
            state: BraidState::NoHeaderReceived { nhr_epoch: epoch, nhr_auth: auth, nhr_header_decoder: header_decoder },
        }
    }

    fn send_step<'a>(state: BraidState) -> (r: SendStep<'a>)
        requires
            state.wf(),
        ensures
            send_step_post(state, r),
            r matches Ok((_, _, s)) ==> s.wf(),
            r matches Ok((msg, _, _)) ==> (msg.data matches Some(c) ==> c.data@.len() <= CHUNK_SIZE),
    {
        match state {
            BraidState::KeysUnsampled { ku_epoch: epoch, ku_auth: auth } => send_keys_unsampled(epoch, auth),
            BraidState::KeysSampled {
                ks_epoch: epoch, ks_auth: auth, ks_dk: dk, ks_ek_seed: ek_seed, ks_ek_vector: ek_vector, ks_hek: hek,
                ks_header_encoder: header_encoder,
            } => {
                let ghost enc0 = header_encoder;
                let mut header_encoder = header_encoder;
                let chunk = next_chunk_opt(&mut header_encoder);
                let msg = SCKAMessage { epoch, message_type: Some(SCKAMessageType::Hdr), data: chunk };
                let ghost enc2 = header_encoder;
                let s = BraidState::KeysSampled {
                    ks_epoch: epoch, ks_auth: auth, ks_dk: dk, ks_ek_seed: ek_seed, ks_ek_vector: ek_vector, ks_hek: hek,
                    ks_header_encoder: header_encoder,
                };
                let r: SendStep<'a> = Ok((msg, (epoch - 1, None), s));
                assert(post_send_chunk(epoch, SCKAMessageType::Hdr, enc0, enc2, s, r));
                r
            },
            BraidState::HeaderSent { hs_epoch: epoch, hs_auth: auth, hs_dk: dk, hs_ct1_decoder: ct1_decoder, hs_ek_encoder: ek_encoder } => {
                let ghost enc0 = ek_encoder;
                let mut ek_encoder = ek_encoder;
                let chunk = match ek_encoder.next_chunk() {
                    Ok(chunk) => chunk,
                    Err(e) => return Err(e),
                };
                let msg = SCKAMessage { epoch, message_type: Some(SCKAMessageType::Ek), data: Some(chunk) };
                let ghost enc2 = ek_encoder;
                let s = BraidState::HeaderSent {
                    hs_epoch: epoch, hs_auth: auth, hs_dk: dk, hs_ct1_decoder: ct1_decoder, hs_ek_encoder: ek_encoder,
                };
                let r: SendStep<'a> = Ok((msg, (epoch - 1, None), s));
                assert(post_send_chunk(epoch, SCKAMessageType::Ek, enc0, enc2, s, r));
                r
            },
            BraidState::Ct1Received { ct1r_epoch: epoch, ct1r_auth: auth, ct1r_dk: dk, ct1r_ct1: ct1, ct1r_ek_encoder: ek_encoder } => {
                let ghost enc0 = ek_encoder;
                let mut ek_encoder = ek_encoder;
                let chunk = next_chunk_opt(&mut ek_encoder);
                let msg = SCKAMessage { epoch, message_type: Some(SCKAMessageType::EkCt1Ack), data: chunk };
                let ghost enc2 = ek_encoder;
                let s = BraidState::Ct1Received {
                    ct1r_epoch: epoch, ct1r_auth: auth, ct1r_dk: dk, ct1r_ct1: ct1, ct1r_ek_encoder: ek_encoder,
                };
                let r: SendStep<'a> = Ok((msg, (epoch - 1, None), s));
                assert(post_send_chunk(epoch, SCKAMessageType::EkCt1Ack, enc0, enc2, s, r));
                r
            },
            BraidState::EkSentCt1Received {
                eksct1r_epoch: epoch, eksct1r_auth: auth, eksct1r_dk: dk, eksct1r_ct1: ct1, eksct1r_ct2_decoder: ct2_decoder,
            } => {
                let msg = SCKAMessage { epoch, message_type: None, data: None };
                let s = BraidState::EkSentCt1Received {
                    eksct1r_epoch: epoch, eksct1r_auth: auth, eksct1r_dk: dk, eksct1r_ct1: ct1,
                    eksct1r_ct2_decoder: ct2_decoder,
                };
                Ok((msg, (epoch - 1, None), s))
            },
            BraidState::NoHeaderReceived { nhr_epoch: epoch, nhr_auth: auth, nhr_header_decoder: header_decoder } => {
                let msg = SCKAMessage { epoch, message_type: None, data: None };
                let s = BraidState::NoHeaderReceived { nhr_epoch: epoch, nhr_auth: auth, nhr_header_decoder: header_decoder };
                Ok((msg, (epoch - 1, None), s))
            },
            BraidState::HeaderReceived { hr_epoch: epoch, hr_auth: auth, hr_ek_seed: ek_seed, hr_hek: hek, hr_ek_decoder: ek_decoder } => {
                send_header_received(epoch, auth, ek_seed, hek, ek_decoder)
            },
            BraidState::Ct1Sampled {
                ct1s_epoch: epoch, ct1s_auth: auth, ct1s_encaps_secret: encaps_secret, ct1s_ct1: ct1, ct1s_hek: hek,
                ct1s_ek_seed: ek_seed, ct1s_ek_decoder: ek_decoder, ct1s_ct1_encoder: ct1_encoder,
            } => {
                let ghost enc0 = ct1_encoder;
                let mut ct1_encoder = ct1_encoder;
                let chunk = next_chunk_opt(&mut ct1_encoder);
                let msg = SCKAMessage { epoch, message_type: Some(SCKAMessageType::Ct1), data: chunk };
                let ghost enc2 = ct1_encoder;
                let s = BraidState::Ct1Sampled {
                    ct1s_epoch: epoch, ct1s_auth: auth, ct1s_encaps_secret: encaps_secret, ct1s_ct1: ct1, ct1s_hek: hek,
                    ct1s_ek_seed: ek_seed, ct1s_ek_decoder: ek_decoder, ct1s_ct1_encoder: ct1_encoder,
                };
                let r: SendStep<'a> = Ok((msg, (epoch - 1, None), s));
                assert(post_send_chunk(epoch, SCKAMessageType::Ct1, enc0, enc2, s, r));
                r
            },
            BraidState::EkReceivedCt1Sampled {
                ekrct1s_epoch: epoch, ekrct1s_auth: auth, ekrct1s_encaps_secret: encaps_secret, ekrct1s_ek_vector: ek_vector,
                ekrct1s_ek_seed: ek_seed, ekrct1s_ct1: ct1, ekrct1s_ct1_encoder: ct1_encoder,
            } => {
                let ghost enc0 = ct1_encoder;
                let mut ct1_encoder = ct1_encoder;
                let chunk = match ct1_encoder.next_chunk() {
                    Ok(chunk) => chunk,
                    Err(e) => return Err(e),
                };
                let msg = SCKAMessage { epoch, message_type: Some(SCKAMessageType::Ct1), data: Some(chunk) };
                let ghost enc2 = ct1_encoder;
                let s = BraidState::EkReceivedCt1Sampled {
                    ekrct1s_epoch: epoch, ekrct1s_auth: auth, ekrct1s_encaps_secret: encaps_secret,
                    ekrct1s_ek_vector: ek_vector, ekrct1s_ek_seed: ek_seed, ekrct1s_ct1: ct1, ekrct1s_ct1_encoder: ct1_encoder,
                };
                let r: SendStep<'a> = Ok((msg, (epoch - 1, None), s));
                assert(post_send_chunk(epoch, SCKAMessageType::Ct1, enc0, enc2, s, r));
                r
            },
            BraidState::Ct1Acknowledged {
                ct1a_epoch: epoch, ct1a_auth: auth, ct1a_encaps_secret: encaps_secret, ct1a_ct1: ct1, ct1a_hek: hek,
                ct1a_ek_seed: ek_seed, ct1a_ek_decoder: ek_decoder,
            } => {
                let msg = SCKAMessage { epoch, message_type: None, data: None };
                let s = BraidState::Ct1Acknowledged {
                    ct1a_epoch: epoch, ct1a_auth: auth, ct1a_encaps_secret: encaps_secret, ct1a_ct1: ct1, ct1a_hek: hek,
                    ct1a_ek_seed: ek_seed, ct1a_ek_decoder: ek_decoder,
                };
                Ok((msg, (epoch - 1, None), s))
            },
            BraidState::Ct2Sampled { ct2s_epoch: epoch, ct2s_auth: auth, ct2s_ct2_encoder: ct2_encoder } => {
                let ghost enc0 = ct2_encoder;
                let mut ct2_encoder = ct2_encoder;
                let chunk = next_chunk_opt(&mut ct2_encoder);
                let msg = SCKAMessage { epoch, message_type: Some(SCKAMessageType::Ct2), data: chunk };
                let ghost enc2 = ct2_encoder;
                let s = BraidState::Ct2Sampled { ct2s_epoch: epoch, ct2s_auth: auth, ct2s_ct2_encoder: ct2_encoder };
                let r: SendStep<'a> = Ok((msg, (epoch - 1, None), s));
                assert(post_send_chunk(epoch, SCKAMessageType::Ct2, enc0, enc2, s, r));
                r
            },
        }
    }

    /// Produces the next braid message. Returns the message, the epoch whose
    /// chain keys it travels under (one below the braid's epoch) and the new
    /// output key when this send completes an encapsulation. Fails when a
    /// chunk that must be sent has run out; the state then holds a fresh
    /// fallback at epoch 20000.
    pub fn send<'a>(&mut self) -> (res: SendResult<'a>)
        requires
            old(self).state.wf(),
        ensures
            final(self).state.wf(),
            send_post(old(self).state, final(self).state, res),
            res matches Ok((msg, _)) ==> (msg.data matches Some(c) ==> c.data@.len() <= CHUNK_SIZE),
    {
        let zeros = zeros_32();
        let mut state = BraidState::KeysUnsampled { ku_epoch: 20000, ku_auth: Authenticator::new(1, &zeros) };
        std::mem::swap(&mut state, &mut self.state);
        match Self::send_step(state) {
            Ok((msg, info, s)) => {
                self.state = s;
                Ok((msg, info))
            },
            Err(e) => Err(e),
        }
    }
}

/// A received message of kind `t` for `epoch`.
pub open spec fn msg_for(msg: SCKAMessage, epoch: u64, t: SCKAMessageType) -> bool {
    msg.epoch == epoch && msg.message_type == Some(t)
}

/// A receive step that keeps the state and reports the epoch below the
/// braid's.
pub open spec fn recv_unchanged<'a>(old: BraidState, r: ReceiveStep<'a>) -> bool {
    r matches Ok((re, ok, s)) && re == old.epoch() - 1 && ok is None && s == old
}

/// The state after the second ciphertext part was made from the received
/// encapsulation key vector `ev`: the encoder holds `ct2 || MAC(ct1 || ct2)`.
pub open spec fn is_ct2_state(s: BraidState, epoch: u64, auth: Authenticator, es: Seq<u8>, ct1: Seq<u8>, ev: Seq<u8>) -> bool {
    let ct2 = spec_ml_kem_768_encapsulate2(es, ev);
    &&& ct2.len() == CT2_SIZE
    &&& s matches BraidState::Ct2Sampled { ct2s_epoch, ct2s_auth, ct2s_ct2_encoder } && ct2s_epoch == epoch
        && ct2s_auth == auth && enc_view(ct2s_ct2_encoder) == spec_chunks(
            ct2 + ct_mac(auth, epoch, ct1 + ct2), CHUNK_SIZE as nat, 0)
}

/// The bytes a decoder holds after an optional chunk.
pub open spec fn received_with(dec: SimpleDecoder, data: Option<Chunk>) -> Seq<u8> {
    match data {
        Some(c) => dec.received@ + c.data@,
        None => dec.received@,
    }
}

pub open spec fn post_recv_keys_sampled<'a>(old: BraidState, msg: SCKAMessage, r: ReceiveStep<'a>) -> bool
    recommends
        old is KeysSampled,
{
    let e = old->ks_epoch;
    if msg.message_type is Some && msg_for(msg, e, SCKAMessageType::Ct1) {
        match msg.data {
            None => r is Err,
            Some(c) => {
                &&& r matches Ok((re, ok, s))
                &&& re == e - 1
                &&& ok is None
                &&& s matches BraidState::HeaderSent { hs_epoch, hs_auth, hs_dk, hs_ct1_decoder, hs_ek_encoder }
                &&& hs_epoch == e
                &&& hs_auth == old->ks_auth
                &&& hs_dk == old->ks_dk
                &&& dec_is(hs_ct1_decoder, CT1_SIZE as nat, c.data@)
                &&& enc_view(hs_ek_encoder) == spec_chunks(old->ks_ek_vector@, CHUNK_SIZE as nat, 0)
            },
        }
    } else {
        recv_unchanged(old, r)
    }
}

pub open spec fn post_recv_header_sent<'a>(old: BraidState, msg: SCKAMessage, r: ReceiveStep<'a>) -> bool
    recommends
        old is HeaderSent,
{
    let e = old->hs_epoch;
    if msg_for(msg, e, SCKAMessageType::Ct1) {
        match msg.data {
            None => r is Err,
            Some(c) => {
                let rec = old->hs_ct1_decoder.received@ + c.data@;
                if rec.len() >= CT1_SIZE {
                    {
                        &&& r matches Ok((re, ok, s))
                        &&& re == e - 1
                        &&& ok is None
                        &&& s matches BraidState::Ct1Received { ct1r_epoch, ct1r_auth, ct1r_dk, ct1r_ct1, ct1r_ek_encoder }
                        &&& ct1r_epoch == e
                        &&& ct1r_auth == old->hs_auth
                        &&& ct1r_dk == old->hs_dk
                        &&& ct1r_ct1 matches Some(x)
                        &&& x@ == rec.take(CT1_SIZE as int)
                        &&& ct1r_ek_encoder == old->hs_ek_encoder
                    }
                } else {
                    {
                        &&& r matches Ok((re, ok, s))
                        &&& re == e - 1
                        &&& ok is None
                        &&& s matches BraidState::HeaderSent { hs_epoch, hs_auth, hs_dk, hs_ct1_decoder, hs_ek_encoder }
                        &&& hs_epoch == e
                        &&& hs_auth == old->hs_auth
                        &&& hs_dk == old->hs_dk
                        &&& dec_is(hs_ct1_decoder, CT1_SIZE as nat, rec)
                        &&& hs_ek_encoder == old->hs_ek_encoder
                    }
                }
            },
        }
    } else {
        recv_unchanged(old, r)
    }
}

pub open spec fn post_recv_ct1_received<'a>(old: BraidState, msg: SCKAMessage, r: ReceiveStep<'a>) -> bool
    recommends
        old is Ct1Received,
{
    let e = old->ct1r_epoch;
    if msg_for(msg, e, SCKAMessageType::Ct2) {
        match msg.data {
            None => r is Err,
            Some(c) => {
                &&& r matches Ok((re, ok, s))
                &&& re == e - 1
                &&& ok is None
                &&& s matches BraidState::EkSentCt1Received { eksct1r_epoch, eksct1r_auth, eksct1r_dk, eksct1r_ct1, eksct1r_ct2_decoder, }
                &&& eksct1r_epoch == e
                &&& eksct1r_auth == old->ct1r_auth
                &&& eksct1r_dk == old->ct1r_dk
                &&& eksct1r_ct1 == old->ct1r_ct1
                &&& dec_is(eksct1r_ct2_decoder, (CT2_SIZE + MAC_SIZE) as nat, c.data@)
            },
        }
    } else {
        recv_unchanged(old, r)
    }
}

/// The shared secret that the sampling party derives from a completed
/// second ciphertext part (`ct2 || mac`).
pub open spec fn decaps_key(old: BraidState, ct2_mac: Seq<u8>) -> Seq<u8>
    recommends
        old is EkSentCt1Received,
{
    spec_kdf_ok(
        spec_ml_kem_768_decapsulate_compressed(
            old->eksct1r_dk@, old->eksct1r_ct1->0@, ct2_mac.take(CT2_SIZE as int)),
        old->eksct1r_epoch,
    )
}

pub open spec fn post_recv_ek_sent_ct1_received<'a>(old: BraidState, msg: SCKAMessage, r: ReceiveStep<'a>) -> bool
    recommends
        old is EkSentCt1Received,
{
    let e = old->eksct1r_epoch;
    let a = old->eksct1r_auth;
    if msg_for(msg, e, SCKAMessageType::Ct2) {
        match msg.data {
            None => r is Err,
            Some(c) => {
                let rec = old->eksct1r_ct2_decoder.received@ + c.data@;
                if rec.len() >= CT2_SIZE + MAC_SIZE {
                    let cm = rec.take((CT2_SIZE + MAC_SIZE) as int);
                    let ss = decaps_key(old, cm);
                    let new_mac_key = spec_auth_update(a.root_key@, e, ss).1;
                    let ct = old->eksct1r_ct1->0@ + cm.take(CT2_SIZE as int);
                    if cm.subrange(CT2_SIZE as int, (CT2_SIZE + MAC_SIZE) as int)
                        == spec_hmac_sha256(new_mac_key, mac_ct_data(e, ct)) && e < u64::MAX {
                        {
                            &&& r matches Ok((re, ok, s))
                            &&& re == e - 1
                            &&& ok matches Some(k)
                            &&& k.epoch == e
                            &&& k.key@ == ss
                            &&& s matches BraidState::NoHeaderReceived { nhr_epoch, nhr_auth, nhr_header_decoder }
                            &&& nhr_epoch == e + 1
                            &&& auth_updated(a, nhr_auth, e, ss)
                            &&& dec_is(nhr_header_decoder, (HEADER_SIZE + MAC_SIZE) as nat, seq![])
                        }
                    } else {
                        r is Err
                    }
                } else {
                    {
                        &&& r matches Ok((re, ok, s))
                        &&& re == e - 1
                        &&& ok is None
                        &&& s matches BraidState::EkSentCt1Received { eksct1r_epoch, eksct1r_auth, eksct1r_dk, eksct1r_ct1, eksct1r_ct2_decoder, }
                        &&& eksct1r_epoch == e
                        &&& eksct1r_auth == a
                        &&& eksct1r_dk == old->eksct1r_dk
                        &&& eksct1r_ct1 == old->eksct1r_ct1
                        &&& dec_is(eksct1r_ct2_decoder, (CT2_SIZE + MAC_SIZE) as nat, rec)
                    }
                }
            },
        }
    } else {
        recv_unchanged(old, r)
    }
}

pub open spec fn post_recv_no_header_received<'a>(old: BraidState, msg: SCKAMessage, r: ReceiveStep<'a>) -> bool
    recommends
        old is NoHeaderReceived,
{
    let e = old->nhr_epoch;
    let a = old->nhr_auth;
    if msg_for(msg, e, SCKAMessageType::Hdr) {
        let rec = received_with(old->nhr_header_decoder, msg.data);
        if rec.len() >= HEADER_SIZE + MAC_SIZE {
            let ek_seed = rec.subrange(0, 32);
            let hek = rec.subrange(32, 64);
            if rec.subrange(64, 96) == hdr_mac(a, e, ek_seed, hek) {
                {
                    &&& r matches Ok((re, ok, s))
                    &&& re == e - 1
                    &&& ok is None
                    &&& s matches BraidState::HeaderReceived { hr_epoch, hr_auth, hr_ek_seed, hr_hek, hr_ek_decoder }
                    &&& hr_epoch == e
                    &&& hr_auth == a
                    &&& hr_ek_seed@ == ek_seed
                    &&& hr_hek@ == hek
                    &&& dec_is(hr_ek_decoder, EK_VECTOR_SIZE as nat, seq![])
                }
            } else {
                r is Err
            }
        } else {
            {
                &&& r matches Ok((re, ok, s))
                &&& re == e - 1
                &&& ok is None
                &&& s matches BraidState::NoHeaderReceived { nhr_epoch, nhr_auth, nhr_header_decoder }
                &&& nhr_epoch == e
                &&& nhr_auth == a
                &&& dec_is(nhr_header_decoder, (HEADER_SIZE + MAC_SIZE) as nat, rec)
            }
        }
    } else {
        recv_unchanged(old, r)
    }
}

pub open spec fn post_recv_ct1_sampled<'a>(old: BraidState, msg: SCKAMessage, r: ReceiveStep<'a>) -> bool
    recommends
        old is Ct1Sampled,
{
    let e = old->ct1s_epoch;
    let a = old->ct1s_auth;
    let hdr = old->ct1s_ek_seed@ + old->ct1s_hek@;
    if msg_for(msg, e, SCKAMessageType::Ek) {
        match msg.data {
            None => r is Err,
            Some(c) => {
                let rec = old->ct1s_ek_decoder.received@ + c.data@;
                if rec.len() >= EK_VECTOR_SIZE {
                    let ev = rec.take(EK_VECTOR_SIZE as int);
                    if spec_ml_kem_768_validate_pk(hdr, ev) {
                        {
                            &&& r matches Ok((re, ok, s))
                            &&& re == e - 1
                            &&& ok is None
                            &&& s matches BraidState::EkReceivedCt1Sampled { ekrct1s_epoch, ekrct1s_auth, ekrct1s_encaps_secret, ekrct1s_ek_vector, ekrct1s_ek_seed, ekrct1s_ct1, ekrct1s_ct1_encoder, }
                            &&& ekrct1s_epoch == e
                            &&& ekrct1s_auth == a
                            &&& ekrct1s_encaps_secret == old->ct1s_encaps_secret
                            &&& ekrct1s_ek_vector@ == ev
                            &&& ekrct1s_ek_seed == old->ct1s_ek_seed
                            &&& ekrct1s_ct1 == old->ct1s_ct1
                            &&& ekrct1s_ct1_encoder == old->ct1s_ct1_encoder
                        }
                    } else {
                        r is Err
                    }
                } else {
                    {
                        &&& r matches Ok((re, ok, s))
                        &&& re == e - 1
                        &&& ok is None
                        &&& s matches BraidState::Ct1Sampled { ct1s_epoch, ct1s_auth, ct1s_encaps_secret, ct1s_ct1, ct1s_hek, ct1s_ek_seed, ct1s_ek_decoder, ct1s_ct1_encoder, }
                        &&& ct1s_epoch == e
                        &&& ct1s_auth == a
                        &&& ct1s_encaps_secret == old->ct1s_encaps_secret
                        &&& ct1s_ct1 == old->ct1s_ct1
                        &&& ct1s_hek == old->ct1s_hek
                        &&& ct1s_ek_seed == old->ct1s_ek_seed
                        &&& dec_is(ct1s_ek_decoder, EK_VECTOR_SIZE as nat, rec)
                        &&& ct1s_ct1_encoder == old->ct1s_ct1_encoder
                    }
                }
            },
        }
    } else if msg_for(msg, e, SCKAMessageType::EkCt1Ack) {
        match msg.data {
            None => r is Err,
            Some(c) => {
                let rec = old->ct1s_ek_decoder.received@ + c.data@;
                if rec.len() >= EK_VECTOR_SIZE {
                    let ev = rec.take(EK_VECTOR_SIZE as int);
                    if spec_ml_kem_768_validate_pk(hdr, ev) {
                        {
                            &&& r matches Ok((re, ok, s))
                            &&& re == e - 1
                            &&& ok is None
                            &&& is_ct2_state(s, e, a, old->ct1s_encaps_secret@, old->ct1s_ct1@, ev)
                        }
                    } else {
                        r is Err
                    }
                } else {
                    {
                        &&& r matches Ok((re, ok, s))
                        &&& re == e - 1
                        &&& ok is None
                        &&& s matches BraidState::Ct1Acknowledged { ct1a_epoch, ct1a_auth, ct1a_encaps_secret, ct1a_ct1, ct1a_hek, ct1a_ek_seed, ct1a_ek_decoder, }
                        &&& ct1a_epoch == e
                        &&& ct1a_auth == a
                        &&& ct1a_encaps_secret == old->ct1s_encaps_secret
                        &&& ct1a_ct1 == old->ct1s_ct1
                        &&& ct1a_hek == old->ct1s_hek
                        &&& ct1a_ek_seed == old->ct1s_ek_seed
                        &&& dec_is(ct1a_ek_decoder, EK_VECTOR_SIZE as nat, rec)
                    }
                }
            },
        }
    } else {
        recv_unchanged(old, r)
    }
}

pub open spec fn post_recv_ek_received_ct1_sampled<'a>(old: BraidState, msg: SCKAMessage, r: ReceiveStep<'a>) -> bool
    recommends
        old is EkReceivedCt1Sampled,
{
    let e = old->ekrct1s_epoch;
    if msg_for(msg, e, SCKAMessageType::EkCt1Ack) {
        {
            &&& r matches Ok((re, ok, s))
            &&& re == e - 1
            &&& ok is None
            &&& is_ct2_state( s, e, old->ekrct1s_auth, old->ekrct1s_encaps_secret@, old->ekrct1s_ct1@, old->ekrct1s_ek_vector@)
        }
    } else {
        recv_unchanged(old, r)
    }
}

pub open spec fn post_recv_ct1_acknowledged<'a>(old: BraidState, msg: SCKAMessage, r: ReceiveStep<'a>) -> bool
    recommends
        old is Ct1Acknowledged,
{
    let e = old->ct1a_epoch;
    let a = old->ct1a_auth;
    if msg_for(msg, e, SCKAMessageType::EkCt1Ack) {
        let rec = received_with(old->ct1a_ek_decoder, msg.data);
        if rec.len() >= EK_VECTOR_SIZE {
            let ev = rec.take(EK_VECTOR_SIZE as int);
            if spec_ml_kem_768_validate_pk(old->ct1a_ek_seed@ + old->ct1a_hek@, ev) {
                {
                    &&& r matches Ok((re, ok, s))
                    &&& re == e - 1
                    &&& ok is None
                    &&& is_ct2_state(s, e, a, old->ct1a_encaps_secret@, old->ct1a_ct1@, ev)
                }
            } else {
                r is Err
            }
        } else {
            {
                &&& r matches Ok((re, ok, s))
                &&& re == e - 1
                &&& ok is None
                &&& s matches BraidState::Ct1Acknowledged { ct1a_epoch, ct1a_auth, ct1a_encaps_secret, ct1a_ct1, ct1a_hek, ct1a_ek_seed, ct1a_ek_decoder, }
                &&& ct1a_epoch == e
                &&& ct1a_auth == a
                &&& ct1a_encaps_secret == old->ct1a_encaps_secret
                &&& ct1a_ct1 == old->ct1a_ct1
                &&& ct1a_hek == old->ct1a_hek
                &&& ct1a_ek_seed == old->ct1a_ek_seed
                &&& dec_is(ct1a_ek_decoder, EK_VECTOR_SIZE as nat, rec)
            }
        }
    } else {
        recv_unchanged(old, r)
    }
}

pub open spec fn post_recv_ct2_sampled<'a>(old: BraidState, msg: SCKAMessage, r: ReceiveStep<'a>) -> bool
    recommends
        old is Ct2Sampled,
{
    let e = old->ct2s_epoch;
    if e < u64::MAX && msg.epoch == e + 1 {
        {
            &&& r matches Ok((re, ok, s))
            &&& re == e
            &&& ok is None
            &&& s == (BraidState::KeysUnsampled { ku_epoch: (e + 1) as u64, ku_auth: old->ct2s_auth })
        }
    } else {
        recv_unchanged(old, r)
    }
}

/// What one receive step does, for each state.
pub open spec fn receive_step_post<'a>(old: BraidState, msg: SCKAMessage, r: ReceiveStep<'a>) -> bool {
    match old {
        BraidState::KeysUnsampled { .. } => recv_unchanged(old, r),
        BraidState::KeysSampled { .. } => post_recv_keys_sampled(old, msg, r),
        BraidState::HeaderSent { .. } => post_recv_header_sent(old, msg, r),
        BraidState::Ct1Received { .. } => post_recv_ct1_received(old, msg, r),
        BraidState::EkSentCt1Received { .. } => post_recv_ek_sent_ct1_received(old, msg, r),
        BraidState::NoHeaderReceived { .. } => post_recv_no_header_received(old, msg, r),
        BraidState::HeaderReceived { .. } => recv_unchanged(old, r),
        BraidState::Ct1Sampled { .. } => post_recv_ct1_sampled(old, msg, r),
        BraidState::EkReceivedCt1Sampled { .. } => post_recv_ek_received_ct1_sampled(old, msg, r),
        BraidState::Ct1Acknowledged { .. } => post_recv_ct1_acknowledged(old, msg, r),
        BraidState::Ct2Sampled { .. } => post_recv_ct2_sampled(old, msg, r),
    }
}

/// What `receive` does: the step's result, and on failure the fallback
/// state (epoch 10000) stays behind.
pub open spec fn receive_post<'a>(old: BraidState, msg: SCKAMessage, new: BraidState, res: ReceiveResult<'a>) -> bool {
    match res {
        Ok((re, ok)) => receive_step_post(old, msg, Ok((re, ok, new))),
        Err(e) => receive_step_post(old, msg, Err(e)) && is_fallback_state(new, 10000),
    }
}

/// Whether `msg` is for `epoch` and of kind `t`.
fn is_msg_for(msg: &SCKAMessage, epoch: u64, t: SCKAMessageType) -> (b: bool)
    ensures
        b == msg_for(*msg, epoch, t),
{
    if msg.epoch != epoch {
        return false;
    }
    match (msg.message_type, t) {
        (Some(SCKAMessageType::Hdr), SCKAMessageType::Hdr) => true,
        (Some(SCKAMessageType::Ek), SCKAMessageType::Ek) => true,
        (Some(SCKAMessageType::EkCt1Ack), SCKAMessageType::EkCt1Ack) => true,
        (Some(SCKAMessageType::Ct1Ack), SCKAMessageType::Ct1Ack) => true,
        (Some(SCKAMessageType::Ct1), SCKAMessageType::Ct1) => true,
        (Some(SCKAMessageType::Ct2), SCKAMessageType::Ct2) => true,
        _ => false,
    }
}

/// The second ciphertext part for a received encapsulation key vector, its
/// MAC, and the state that sends them.
fn make_ct2_state(
    epoch: u64,
    auth: Authenticator,
    encaps_secret: &[u8; ENCAPS_SECRET_SIZE],
    ct1: [u8; CT1_SIZE],
    ek_vector: &[u8; EK_VECTOR_SIZE],
) -> (s: BraidState)
    requires
        auth.mac_key is Some,
    ensures
        is_ct2_state(s, epoch, auth, encaps_secret@, ct1@, ek_vector@),
        s.wf() || epoch == 0,
{
    let mut auth = auth;
    let ct2: [u8; CT2_SIZE] = libcrux_ml_kem_encapsulate_2(encaps_secret, ek_vector);
    let ct: [u8; ML_KEM_768_CT_SIZE] = concat(ct1, ct2);
    let mac: [u8; MAC_SIZE] = match auth.mac_ct(epoch, ct) {
        Ok(mac) => mac,
        Err(_) => [0u8; MAC_SIZE],
    };
    let concat_ct2_mac: [u8; 160] = concat(ct2, mac);
    let ct2_encoder = SimpleEncoder::new(&concat_ct2_mac, CHUNK_SIZE);
    BraidState::Ct2Sampled { ct2s_epoch: epoch, ct2s_auth: auth, ct2s_ct2_encoder: ct2_encoder }
}

/// The first `EK_VECTOR_SIZE` bytes of a complete encapsulation key decoder.
fn decoded_ek_vector(dec: &SimpleDecoder) -> (ev: [u8; EK_VECTOR_SIZE])
    requires
        dec.message_size == EK_VECTOR_SIZE,
        dec.received@.len() >= EK_VECTOR_SIZE,
    ensures
        ev@ == dec.received@.take(EK_VECTOR_SIZE as int),
{
    let v = match dec.message() {
        Some(v) => v,
        None => Vec::new(),
    };
    extract_chunk::<EK_VECTOR_SIZE>(v.as_slice(), 0)
}

fn recv_keys_sampled<'a>(old: BraidState, msg: SCKAMessage) -> (r: ReceiveStep<'a>)
    requires
        old is KeysSampled,
        old.wf(),
    ensures
        post_recv_keys_sampled(old, msg, r),
        r matches Ok((_, _, s)) ==> s.wf(),
{
    let ghost old_s = old;
    match old {
        BraidState::KeysSampled {
            ks_epoch: epoch, ks_auth: auth, ks_dk: dk, ks_ek_seed: ek_seed, ks_ek_vector: ek_vector, ks_hek: hek,
            ks_header_encoder: header_encoder,
        } => {
            if msg.message_type.is_some() && is_msg_for(&msg, epoch, SCKAMessageType::Ct1) {
                let mut ct1_decoder = SimpleDecoder::new(CT1_SIZE);
                let chunk = match msg.data {
                    Some(chunk) => chunk,
                    None => return Err("Couldn't find the message data"),
                };
                ct1_decoder.add_chunk(chunk);
                let ek_encoder = SimpleEncoder::new(&ek_vector, CHUNK_SIZE);
                proof {
                    assert(ct1_decoder.received@ =~= chunk.data@);
                }
                Ok((epoch - 1, None, BraidState::HeaderSent {
                    hs_epoch: epoch, hs_auth: auth, hs_dk: dk, hs_ct1_decoder: ct1_decoder, hs_ek_encoder: ek_encoder,
                }))
            } else {
                Ok((epoch - 1, None, BraidState::KeysSampled {
                    ks_epoch: epoch, ks_auth: auth, ks_dk: dk, ks_ek_seed: ek_seed, ks_ek_vector: ek_vector, ks_hek: hek,
                    ks_header_encoder: header_encoder,
                }))
            }
        },
        _ => Err("unexpected state"),
    }
}

fn recv_header_sent<'a>(old: BraidState, msg: SCKAMessage) -> (r: ReceiveStep<'a>)
    requires
        old is HeaderSent,
        old.wf(),
    ensures
        post_recv_header_sent(old, msg, r),
        r matches Ok((_, _, s)) ==> s.wf(),
{
    match old {
        BraidState::HeaderSent { hs_epoch: epoch, hs_auth: auth, hs_dk: dk, hs_ct1_decoder: ct1_decoder, hs_ek_encoder: ek_encoder } => {
            let mut ct1_decoder = ct1_decoder;
            if is_msg_for(&msg, epoch, SCKAMessageType::Ct1) {
                let chunk = match msg.data {
                    Some(chunk) => chunk,
                    None => return Err("Couldn't find the message"),
                };
                ct1_decoder.add_chunk(chunk);
                if ct1_decoder.has_message() {
                    let ct1_vec = match ct1_decoder.message() {
                        Some(message) => message,
                        None => return Err("Couldn't find the message"),
                    };
                    let ct1: [u8; CT1_SIZE] = extract_chunk::<CT1_SIZE>(ct1_vec.as_slice(), 0);
                    proof {
                        assert(ct1@ =~= ct1_decoder.received@.take(CT1_SIZE as int));
                    }
                    Ok((epoch - 1, None, BraidState::Ct1Received {
                        ct1r_epoch: epoch, ct1r_auth: auth, ct1r_dk: dk, ct1r_ct1: Some(ct1), ct1r_ek_encoder: ek_encoder,
                    }))
                } else {
                    Ok((epoch - 1, None, BraidState::HeaderSent {
                        hs_epoch: epoch, hs_auth: auth, hs_dk: dk, hs_ct1_decoder: ct1_decoder, hs_ek_encoder: ek_encoder,
                    }))
                }
            } else {
                Ok((epoch - 1, None, BraidState::HeaderSent {
                    hs_epoch: epoch, hs_auth: auth, hs_dk: dk, hs_ct1_decoder: ct1_decoder, hs_ek_encoder: ek_encoder,
                }))
            }
        },
        _ => Err("unexpected state"),
    }
}

fn recv_ct1_received<'a>(old: BraidState, msg: SCKAMessage) -> (r: ReceiveStep<'a>)
    requires
        old is Ct1Received,
        old.wf(),
    ensures
        post_recv_ct1_received(old, msg, r),
        r matches Ok((_, _, s)) ==> s.wf(),
{
    match old {
        BraidState::Ct1Received { ct1r_epoch: epoch, ct1r_auth: auth, ct1r_dk: dk, ct1r_ct1: ct1, ct1r_ek_encoder: ek_encoder } => {
            if is_msg_for(&msg, epoch, SCKAMessageType::Ct2) {
                let mut ct2_decoder = SimpleDecoder::new(CT2_SIZE + MAC_SIZE);
                let chunk = match msg.data {
                    Some(chunk) => chunk,
                    None => return Err("Couldn't find the message"),
                };
                ct2_decoder.add_chunk(chunk);
                proof {
                    assert(ct2_decoder.received@ =~= chunk.data@);
                }
                Ok((epoch - 1, None, BraidState::EkSentCt1Received {
                    eksct1r_epoch: epoch, eksct1r_auth: auth, eksct1r_dk: dk, eksct1r_ct1: ct1,
                    eksct1r_ct2_decoder: ct2_decoder,
                }))
            } else {
                Ok((epoch - 1, None, BraidState::Ct1Received {
                    ct1r_epoch: epoch, ct1r_auth: auth, ct1r_dk: dk, ct1r_ct1: ct1, ct1r_ek_encoder: ek_encoder,
                }))
            }
        },
        _ => Err("unexpected state"),
    }
}

fn recv_ek_sent_ct1_received<'a>(old: BraidState, msg: SCKAMessage) -> (r: ReceiveStep<'a>)
    requires
        old is EkSentCt1Received,
        old.wf(),
    ensures
        post_recv_ek_sent_ct1_received(old, msg, r),
        r matches Ok((_, _, s)) ==> s.wf(),
{
    let ghost old_s = old;
    match old {
        BraidState::EkSentCt1Received {
            eksct1r_epoch: epoch, eksct1r_auth: auth, eksct1r_dk: dk, eksct1r_ct1: ct1, eksct1r_ct2_decoder: ct2_decoder,
        } => {
            let mut auth = auth;
            let mut ct2_decoder = ct2_decoder;
            if is_msg_for(&msg, epoch, SCKAMessageType::Ct2) {
                let chunk = match msg.data {
                    Some(chunk) => chunk,
                    None => return Err("Couldn't find the message"),
                };
                ct2_decoder.add_chunk(chunk);
                if ct2_decoder.has_message() {
                    let ct2_with_mac_vec = match ct2_decoder.message() {
                        Some(message) => message,
                        None => return Err("Couldn't find the message"),
                    };
                    let ct2_with_mac: [u8; 160] = extract_chunk::<160>(ct2_with_mac_vec.as_slice(), 0);
                    let ct2: [u8; CT2_SIZE] = extract_chunk::<CT2_SIZE>(&ct2_with_mac, 0);
                    let mac: [u8; MAC_SIZE] = extract_chunk::<MAC_SIZE>(&ct2_with_mac, CT2_SIZE);
                    let ghost cm = ct2_decoder.received@.take(160);
                    proof {
                        assert(ct2_with_mac@ =~= cm);
                        assert(ct2@ =~= cm.take(CT2_SIZE as int));
                    }
                    let ct1 = match ct1 {
                        Some(ct1) => ct1,
                        None => return Err("Couldn't find the message"),
                    };
                    let ss: [u8; SHARED_SECRET_SIZE] = libcrux_ml_kem_decapsulate_compressed_key(&dk, &ct1, &ct2);
                    let ss = Authenticator::kdf_ok(ss, epoch);
                    assert(ss@ == decaps_key(old_s, cm));
                    match auth.update_auth_state(epoch, &ss) {
                        Ok(()) => {},
                        Err(e) => return Err(e),
                    }
                    let concat_ct1_ct2: [u8; ML_KEM_768_CT_SIZE] = concat(ct1, ct2);
                    match auth.vfy_ct(epoch, concat_ct1_ct2, mac) {
                        Ok(_) => {},
                        Err(e) => return Err(e),
                    }
                    if epoch == u64::MAX {
                        return Err("The epoch counter is exhausted");
                    }
                    let header_decoder = SimpleDecoder::new(HEADER_SIZE + MAC_SIZE);
                    let output_key = SCKAOutputKey { epoch, key: ss };
                    Ok((epoch - 1, Some(output_key), BraidState::NoHeaderReceived {
                        nhr_epoch: epoch + 1, nhr_auth: auth, nhr_header_decoder: header_decoder,
                    }))
                } else {
                    Ok((epoch - 1, None, BraidState::EkSentCt1Received {
                        eksct1r_epoch: epoch, eksct1r_auth: auth, eksct1r_dk: dk, eksct1r_ct1: ct1,
                        eksct1r_ct2_decoder: ct2_decoder,
                    }))
                }
            } else {
                Ok((epoch - 1, None, BraidState::EkSentCt1Received {
                    eksct1r_epoch: epoch, eksct1r_auth: auth, eksct1r_dk: dk, eksct1r_ct1: ct1,
                    eksct1r_ct2_decoder: ct2_decoder,
                }))
            }
        },
        _ => Err("unexpected state"),
    }
}

fn recv_no_header_received<'a>(old: BraidState, msg: SCKAMessage) -> (r: ReceiveStep<'a>)
    requires
        old is NoHeaderReceived,
        old.wf(),
    ensures
        post_recv_no_header_received(old, msg, r),
        r matches Ok((_, _, s)) ==> s.wf(),
{
    match old {
        BraidState::NoHeaderReceived { nhr_epoch: epoch, nhr_auth: auth, nhr_header_decoder: header_decoder } => {
            let mut header_decoder = header_decoder;
            let mut auth = auth;
            if is_msg_for(&msg, epoch, SCKAMessageType::Hdr) {
                match msg.data {
                    Some(chunk) => header_decoder.add_chunk(chunk),
                    None => {},
                }
                if header_decoder.has_message() {
                    let concat_header_mac = match header_decoder.message() {
                        Some(hmac) => hmac,
                        None => return Err("Could not find any message"),
                    };
                    let header: [u8; HEADER_SIZE] = extract_chunk::<HEADER_SIZE>(concat_header_mac.as_slice(), 0);
                    let mac: [u8; MAC_SIZE] = extract_chunk::<MAC_SIZE>(concat_header_mac.as_slice(), HEADER_SIZE);
                    let ek_seed: [u8; EK_SEED_SIZE] = extract_chunk::<EK_SEED_SIZE>(&header, 0);
                    let hek: [u8; HEK_SIZE] = extract_chunk::<HEK_SIZE>(&header, EK_SEED_SIZE);
                    proof {
                        let rec = header_decoder.received@;
                        assert(ek_seed@ =~= rec.subrange(0, 32));
                        assert(hek@ =~= rec.subrange(32, 64));
                        assert(mac@ =~= rec.subrange(64, 96));
                    }
                    let ml_kem_header = MlKemHeader { ek_seed, hek };
                    match auth.vfy_hdr(epoch, ml_kem_header, mac) {
                        Ok(()) => {},
                        Err(e) => return Err(e),
                    }
                    let ek_decoder = SimpleDecoder::new(EK_VECTOR_SIZE);
                    Ok((epoch - 1, None, BraidState::HeaderReceived {
                        hr_epoch: epoch, hr_auth: auth, hr_ek_seed: ek_seed, hr_hek: hek, hr_ek_decoder: ek_decoder,
                    }))
                } else {
                    Ok((epoch - 1, None, BraidState::NoHeaderReceived {
                        nhr_epoch: epoch, nhr_auth: auth, nhr_header_decoder: header_decoder,
                    }))
                }
            } else {
                Ok((epoch - 1, None, BraidState::NoHeaderReceived {
                    nhr_epoch: epoch, nhr_auth: auth, nhr_header_decoder: header_decoder,
                }))
            }
        },
        _ => Err("unexpected state"),
    }
}

fn recv_ct1_sampled<'a>(old: BraidState, msg: SCKAMessage) -> (r: ReceiveStep<'a>)
    requires
        old is Ct1Sampled,
        old.wf(),
    ensures
        post_recv_ct1_sampled(old, msg, r),
        r matches Ok((_, _, s)) ==> s.wf(),
{
    match old {
        BraidState::Ct1Sampled {
            ct1s_epoch: epoch, ct1s_auth: auth, ct1s_encaps_secret: encaps_secret, ct1s_ct1: ct1, ct1s_hek: hek,
            ct1s_ek_seed: ek_seed, ct1s_ek_decoder: ek_decoder, ct1s_ct1_encoder: ct1_encoder,
        } => {
            let mut ek_decoder = ek_decoder;
            if is_msg_for(&msg, epoch, SCKAMessageType::Ek) {
                match msg.data {
                    Some(chunk) => ek_decoder.add_chunk(chunk),
                    None => return Err("Couldn't find the message data"),
                }
                if ek_decoder.has_message() {
                    let ek_vector = decoded_ek_vector(&ek_decoder);
                    let hdr: [u8; 64] = concat(ek_seed, hek);
                    match libcrux_ml_kem_validate(&hdr, &ek_vector) {
                        Ok(()) => {},
                        Err(e) => return Err(e),
                    }
                    Ok((epoch - 1, None, BraidState::EkReceivedCt1Sampled {
                        ekrct1s_epoch: epoch, ekrct1s_auth: auth, ekrct1s_encaps_secret: encaps_secret,
                        ekrct1s_ek_vector: ek_vector, ekrct1s_ek_seed: ek_seed, ekrct1s_ct1: ct1,
                        ekrct1s_ct1_encoder: ct1_encoder,
                    }))
                } else {
                    Ok((epoch - 1, None, BraidState::Ct1Sampled {
                        ct1s_epoch: epoch, ct1s_auth: auth, ct1s_encaps_secret: encaps_secret, ct1s_ct1: ct1,
                        ct1s_hek: hek, ct1s_ek_seed: ek_seed, ct1s_ek_decoder: ek_decoder, ct1s_ct1_encoder: ct1_encoder,
                    }))
                }
            } else if is_msg_for(&msg, epoch, SCKAMessageType::EkCt1Ack) {
                match msg.data {
                    Some(chunk) => ek_decoder.add_chunk(chunk),
                    None => return Err("Couldn't find the message data"),
                }
                if ek_decoder.has_message() {
                    let ek_vector = decoded_ek_vector(&ek_decoder);
                    let hdr: [u8; 64] = concat(ek_seed, hek);
                    match libcrux_ml_kem_validate(&hdr, &ek_vector) {
                        Ok(()) => {},
                        Err(e) => return Err(e),
                    }
                    let s = make_ct2_state(epoch, auth, &encaps_secret, ct1, &ek_vector);
                    Ok((epoch - 1, None, s))
                } else {
                    Ok((epoch - 1, None, BraidState::Ct1Acknowledged {
                        ct1a_epoch: epoch, ct1a_auth: auth, ct1a_encaps_secret: encaps_secret, ct1a_ct1: ct1,
                        ct1a_hek: hek, ct1a_ek_seed: ek_seed, ct1a_ek_decoder: ek_decoder,
                    }))
                }
            } else {
                Ok((epoch - 1, None, BraidState::Ct1Sampled {
                    ct1s_epoch: epoch, ct1s_auth: auth, ct1s_encaps_secret: encaps_secret, ct1s_ct1: ct1,
                    ct1s_hek: hek, ct1s_ek_seed: ek_seed, ct1s_ek_decoder: ek_decoder, ct1s_ct1_encoder: ct1_encoder,
                }))
            }
        },
        _ => Err("unexpected state"),
    }
}

fn recv_ek_received_ct1_sampled<'a>(old: BraidState, msg: SCKAMessage) -> (r: ReceiveStep<'a>)
    requires
        old is EkReceivedCt1Sampled,
        old.wf(),
    ensures
        post_recv_ek_received_ct1_sampled(old, msg, r),
        r matches Ok((_, _, s)) ==> s.wf(),
{
    match old {
        BraidState::EkReceivedCt1Sampled {
            ekrct1s_epoch: epoch, ekrct1s_auth: auth, ekrct1s_encaps_secret: encaps_secret,
            ekrct1s_ek_vector: ek_vector, ekrct1s_ek_seed: ek_seed, ekrct1s_ct1: ct1, ekrct1s_ct1_encoder: ct1_encoder,
        } => {
            if is_msg_for(&msg, epoch, SCKAMessageType::EkCt1Ack) {
                let s = make_ct2_state(epoch, auth, &encaps_secret, ct1, &ek_vector);
                Ok((epoch - 1, None, s))
            } else {
                Ok((epoch - 1, None, BraidState::EkReceivedCt1Sampled {
                    ekrct1s_epoch: epoch, ekrct1s_auth: auth, ekrct1s_encaps_secret: encaps_secret,
                    ekrct1s_ek_vector: ek_vector, ekrct1s_ek_seed: ek_seed, ekrct1s_ct1: ct1,
                    ekrct1s_ct1_encoder: ct1_encoder,
                }))
            }
        },
        _ => Err("unexpected state"),
    }
}

fn recv_ct1_acknowledged<'a>(old: BraidState, msg: SCKAMessage) -> (r: ReceiveStep<'a>)
    requires
        old is Ct1Acknowledged,
        old.wf(),
    ensures
        post_recv_ct1_acknowledged(old, msg, r),
        r matches Ok((_, _, s)) ==> s.wf(),
{
    match old {
        BraidState::Ct1Acknowledged {
            ct1a_epoch: epoch, ct1a_auth: auth, ct1a_encaps_secret: encaps_secret, ct1a_ct1: ct1, ct1a_hek: hek,
            ct1a_ek_seed: ek_seed, ct1a_ek_decoder: ek_decoder,
        } => {
            let mut ek_decoder = ek_decoder;
            if is_msg_for(&msg, epoch, SCKAMessageType::EkCt1Ack) {
                match msg.data {
                    Some(chunk) => ek_decoder.add_chunk(chunk),
                    None => {},
                }
                if ek_decoder.has_message() {
                    let ek_vector = decoded_ek_vector(&ek_decoder);
                    let header: [u8; 64] = concat(ek_seed, hek);
                    match libcrux_ml_kem_validate(&header, &ek_vector) {
                        Ok(()) => {},
                        Err(e) => return Err(e),
                    }
                    let s = make_ct2_state(epoch, auth, &encaps_secret, ct1, &ek_vector);
                    Ok((epoch - 1, None, s))
                } else {
                    Ok((epoch - 1, None, BraidState::Ct1Acknowledged {
                        ct1a_epoch: epoch, ct1a_auth: auth, ct1a_encaps_secret: encaps_secret, ct1a_ct1: ct1,
                        ct1a_hek: hek, ct1a_ek_seed: ek_seed, ct1a_ek_decoder: ek_decoder,
                    }))
                }
            } else {
                Ok((epoch - 1, None, BraidState::Ct1Acknowledged {
                    ct1a_epoch: epoch, ct1a_auth: auth, ct1a_encaps_secret: encaps_secret, ct1a_ct1: ct1,
                    ct1a_hek: hek, ct1a_ek_seed: ek_seed, ct1a_ek_decoder: ek_decoder,
                }))
            }
        },
        _ => Err("unexpected state"),
    }
}

fn recv_ct2_sampled<'a>(old: BraidState, msg: SCKAMessage) -> (r: ReceiveStep<'a>)
    requires
        old is Ct2Sampled,
        old.wf(),
    ensures
        post_recv_ct2_sampled(old, msg, r),
        r matches Ok((_, _, s)) ==> s.wf(),
{
    match old {
        BraidState::Ct2Sampled { ct2s_epoch: epoch, ct2s_auth: auth, ct2s_ct2_encoder: ct2_encoder } => {
            if epoch < u64::MAX && msg.epoch == epoch + 1 {
                Ok((epoch, None, BraidState::KeysUnsampled { ku_epoch: epoch + 1, ku_auth: auth }))
            } else {
                Ok((epoch - 1, None, BraidState::Ct2Sampled {
                    ct2s_epoch: epoch, ct2s_auth: auth, ct2s_ct2_encoder: ct2_encoder,
                }))
            }
        },
        _ => Err("unexpected state"),
    }
}

impl BraidState {
    /// The epoch of the state.
    pub fn get_epoch(&self) -> (e: u64)
        ensures
            e == self.epoch(),
    {
        match self {
            BraidState::KeysUnsampled { ku_epoch, .. } => *ku_epoch,
            BraidState::KeysSampled { ks_epoch, .. } => *ks_epoch,
            BraidState::HeaderSent { hs_epoch, .. } => *hs_epoch,
            BraidState::Ct1Received { ct1r_epoch, .. } => *ct1r_epoch,
            BraidState::EkSentCt1Received { eksct1r_epoch, .. } => *eksct1r_epoch,
            BraidState::NoHeaderReceived { nhr_epoch, .. } => *nhr_epoch,
            BraidState::HeaderReceived { hr_epoch, .. } => *hr_epoch,
            BraidState::Ct1Sampled { ct1s_epoch, .. } => *ct1s_epoch,
            BraidState::EkReceivedCt1Sampled { ekrct1s_epoch, .. } => *ekrct1s_epoch,
            BraidState::Ct1Acknowledged { ct1a_epoch, .. } => *ct1a_epoch,
            BraidState::Ct2Sampled { ct2s_epoch, .. } => *ct2s_epoch,
        }
    }
}

impl MlKemBraid {
    fn receive_step<'a>(old: BraidState, msg: SCKAMessage) -> (r: ReceiveStep<'a>)
        requires
            old.wf(),
        ensures
            receive_step_post(old, msg, r),
            r matches Ok((_, _, s)) ==> s.wf(),
    {
        match old {
            BraidState::KeysUnsampled { .. } | BraidState::HeaderReceived { .. } => {
                let epoch = old.get_epoch();
                Ok((epoch - 1, None, old))
            },
            BraidState::KeysSampled { .. } => recv_keys_sampled(old, msg),
            BraidState::HeaderSent { .. } => recv_header_sent(old, msg),
            BraidState::Ct1Received { .. } => recv_ct1_received(old, msg),
            BraidState::EkSentCt1Received { .. } => recv_ek_sent_ct1_received(old, msg),
            BraidState::NoHeaderReceived { .. } => recv_no_header_received(old, msg),
            BraidState::Ct1Sampled { .. } => recv_ct1_sampled(old, msg),
            BraidState::EkReceivedCt1Sampled { .. } => recv_ek_received_ct1_sampled(old, msg),
            BraidState::Ct1Acknowledged { .. } => recv_ct1_acknowledged(old, msg),
            BraidState::Ct2Sampled { .. } => recv_ct2_sampled(old, msg),
        }
    }

    /// Takes in a braid message. Returns the epoch whose chain keys the
    /// accompanying message uses and the new output key when this message
    /// completes the epoch's key agreement. Fails on a message of the
    /// expected kind without data, on a MAC or key check that does not
    /// pass, and when the epoch counter is exhausted; the state then holds a
    /// fresh fallback at epoch 10000.
    pub fn receive<'a>(&mut self, msg: SCKAMessage) -> (res: ReceiveResult<'a>)
        requires
            old(self).state.wf(),
        ensures
            final(self).state.wf(),
            receive_post(old(self).state, msg, final(self).state, res),
    {
        let zeros = zeros_32();
        let mut state = BraidState::KeysUnsampled { ku_epoch: 10000, ku_auth: Authenticator::new(1, &zeros) };
        std::mem::swap(&mut state, &mut self.state);
        match Self::receive_step(state, msg) {
            Ok((re, ok, s)) => {
                self.state = s;
                Ok((re, ok))
            },
            Err(e) => Err(e),
        }
    }
}


/// The three chunks of a 96-byte string.
proof fn lemma_three_chunks(data: Seq<u8>)
    requires
        data.len() == 96,
    ensures
        spec_chunks(data, 32, 0).len() == 3,
        spec_chunks(data, 32, 0)[0] == (0nat, data.subrange(0, 32)),
        spec_chunks(data, 32, 0)[1] == (1nat, data.subrange(32, 64)),
        spec_chunks(data, 32, 0)[2] == (2nat, data.subrange(64, 96)),
{
    let d1 = data.skip(32);
    let d2 = d1.skip(32);
    assert(d2.len() == 32);
    assert(spec_chunks(d2, 32, 2) == seq![(2nat, d2)]);
    assert(spec_chunks(d1, 32, 1) == seq![(1nat, d1.take(32))] + spec_chunks(d2, 32, 2));
    assert(spec_chunks(data, 32, 0) == seq![(0nat, data.take(32))] + spec_chunks(d1, 32, 1));
    assert(data.take(32) =~= data.subrange(0, 32));
    assert(d1.take(32) =~= data.subrange(32, 64));
    assert(d2 =~= data.subrange(64, 96));
}

/// The header gets through: the initiator's braid, fresh from `ss`, sends
/// its header and MAC in three messages; the responder's braid, fresh from
/// the same secret, receiving them in order accepts the header and holds
/// the encapsulation key seed and hash the initiator sampled. Every step
/// reports epoch 0 and no key.
pub proof fn law_header_delivered<'a>(
    ss: Seq<u8>,
    a0: MlKemBraid, a1: MlKemBraid, a2: MlKemBraid, a3: MlKemBraid,
    s1: SendResult<'a>, s2: SendResult<'a>, s3: SendResult<'a>,
    b0: MlKemBraid, b1: MlKemBraid, b2: MlKemBraid, b3: MlKemBraid,
    r1: ReceiveResult<'a>, r2: ReceiveResult<'a>, r3: ReceiveResult<'a>,
)
    requires
        is_initiator_braid(a0, ss),
        is_responder_braid(b0, ss),
        send_post(a0.state, a1.state, s1),
        send_post(a1.state, a2.state, s2),
        send_post(a2.state, a3.state, s3),
        s1 matches Ok((m1, _)) ==> receive_post(b0.state, m1, b1.state, r1),
        s2 matches Ok((m2, _)) ==> receive_post(b1.state, m2, b2.state, r2),
        s3 matches Ok((m3, _)) ==> receive_post(b2.state, m3, b3.state, r3),
    ensures
        s1 is Ok && s2 is Ok && s3 is Ok,
        r1 == Ok::<(u64, Option<SCKAOutputKey>), &'a str>((0, None)),
        r2 == Ok::<(u64, Option<SCKAOutputKey>), &'a str>((0, None)),
        r3 == Ok::<(u64, Option<SCKAOutputKey>), &'a str>((0, None)),
        a3.state matches BraidState::KeysSampled { ks_ek_seed, ks_hek, .. }
            && b3.state matches BraidState::HeaderReceived { hr_epoch, hr_ek_seed, hr_hek, .. }
            && hr_epoch == 1 && hr_ek_seed == ks_ek_seed && hr_hek == ks_hek,
{
    let auth = a0.state->ku_auth;
    let st1 = match s1 {
        Ok((msg, info)) => Ok::<(SCKAMessage, (u64, Option<SCKAOutputKey>), BraidState), &'a str>((msg, info, a1.state)),
        Err(e) => Err(e),
    };
    let seed = choose|seed: Seq<u8>| seed.len() == 64 && #[trigger] post_send_keys_unsampled(
        1, auth, spec_ml_kem_768_compressed_key_pair(seed), st1);
    let kp = spec_ml_kem_768_compressed_key_pair(seed);
    let (m1, _i1) = s1.unwrap();
    assert(kp.len() == DECAPSULATION_KEY_SIZE);
    let h = kp_header(kp);
    let ek_seed = h.subrange(0, 32);
    let hek = h.subrange(32, 64);
    let data = h + hdr_mac(auth, 1, ek_seed, hek);
    assert(data.len() == 96);
    lemma_three_chunks(data);
    let enc1 = a1.state->ks_header_encoder;
    assert(enc_view(enc1) == spec_chunks(data, 32, 0).drop_first());
    // second and third chunks
    let (e1, au1, dk1, sd1, ev1, hk1) = (a1.state->ks_epoch, a1.state->ks_auth, a1.state->ks_dk, a1.state->ks_ek_seed,
        a1.state->ks_ek_vector, a1.state->ks_hek);
    let st2 = match s2 {
        Ok((msg, info)) => Ok::<(SCKAMessage, (u64, Option<SCKAOutputKey>), BraidState), &'a str>((msg, info, a2.state)),
        Err(e) => Err(e),
    };
    let enc2 = choose|enc2: SimpleEncoder| #[trigger] post_send_chunk(1, SCKAMessageType::Hdr, enc1, enc2,
        BraidState::KeysSampled { ks_epoch: e1, ks_auth: au1, ks_dk: dk1, ks_ek_seed: sd1, ks_ek_vector: ev1, ks_hek: hk1,
            ks_header_encoder: enc2 }, st2);
    let (m2, _i2) = s2.unwrap();
    assert(enc_view(enc1).len() == 2);
    assert(enc_view(enc1).len() == enc1.chunks@.len());
    assert(enc_view(enc1)[0] == (1nat, data.subrange(32, 64)));
    assert(enc_view(enc1)[1] == (2nat, data.subrange(64, 96)));
    assert(enc1.chunks@[0].view_pair() == enc_view(enc1)[0]);
    assert(enc2.chunks@ == enc1.chunks@.drop_first());
    assert(enc_view(enc2) =~= enc_view(enc1).drop_first());
    let st3 = match s3 {
        Ok((msg, info)) => Ok::<(SCKAMessage, (u64, Option<SCKAOutputKey>), BraidState), &'a str>((msg, info, a3.state)),
        Err(e) => Err(e),
    };
    let enc3 = choose|enc3: SimpleEncoder| #[trigger] post_send_chunk(1, SCKAMessageType::Hdr, enc2, enc3,
        BraidState::KeysSampled { ks_epoch: e1, ks_auth: au1, ks_dk: dk1, ks_ek_seed: sd1, ks_ek_vector: ev1, ks_hek: hk1,
            ks_header_encoder: enc3 }, st3);
    let (m3, _i3) = s3.unwrap();
    assert(enc2.chunks@[0].view_pair() == enc_view(enc2)[0]);
    // the responder collects the header
    let bauth = b0.state->nhr_auth;
    assert(auth_view(bauth) == auth_view(auth));
    let rec1 = data.subrange(0, 32);
    assert(received_with(b0.state->nhr_header_decoder, m1.data) =~= rec1);
    assert(b1.state matches BraidState::NoHeaderReceived { nhr_header_decoder, .. } && nhr_header_decoder.received@ == rec1);
    assert(received_with(b1.state->nhr_header_decoder, m2.data) =~= data.subrange(0, 64));
    assert(received_with(b2.state->nhr_header_decoder, m3.data) =~= data);
    assert(data.subrange(0, 32) =~= ek_seed);
    assert(data.subrange(32, 64) =~= hek);
    assert(data.subrange(64, 96) =~= hdr_mac(auth, 1, ek_seed, hek));
    assert(hdr_mac(bauth, 1, ek_seed, hek) == hdr_mac(auth, 1, ek_seed, hek));
}


/// Incremental ML-KEM correctness for the compressed key pair drawn from
/// `seed`: decapsulating the two ciphertext parts made for its header and
/// its encapsulation key vector recovers the secret of the first part.
pub open spec fn kem_incremental_recovers(seed: Seq<u8>) -> bool {
    let kp = spec_ml_kem_768_compressed_key_pair(seed);
    forall|rnd: Seq<u8>| #![trigger spec_ml_kem_768_encapsulate1(kp_header(kp), rnd)]
        spec_ml_kem_768_decapsulate_compressed(kp, spec_ml_kem_768_encapsulate1(kp_header(kp), rnd).1,
            spec_ml_kem_768_encapsulate2(spec_ml_kem_768_encapsulate1(kp_header(kp), rnd).0, kp_ek_vector(kp)))
            == spec_ml_kem_768_encapsulate1(kp_header(kp), rnd).2
}

} // verus!
