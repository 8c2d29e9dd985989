use vstd::prelude::*;
use crate::util::constants::{CHUNK_SIZE, CT1_SIZE, CT2_SIZE, DECAPSULATION_KEY_SIZE, EK_VECTOR_SIZE, HEADER_SIZE, MAC_SIZE};
use crate::util::keys::SCKAOutputKey;
use crate::util::libcrux_wrap::{
    spec_ml_kem_768_compressed_key_pair, spec_ml_kem_768_decapsulate_compressed, spec_ml_kem_768_encapsulate1,
    spec_ml_kem_768_encapsulate2,
};
use crate::util::messages::{Chunk, SCKAMessage, SCKAMessageType};
use crate::ml_kem_braid::authenticator::{Authenticator, spec_kdf_ok};
use crate::ml_kem_braid::encoder::{SimpleEncoder, lemma_chunks_flatten, lemma_chunks_shape, spec_chunks, spec_flatten};
use crate::ml_kem_braid::ml_kem_braid_impl::{
    BraidState, MlKemBraid, SendStep, ct_mac, enc_step, enc_view, hdr_mac, is_ct2_state, is_initiator_braid,
    is_responder_braid, kem_incremental_recovers, kp_ek_vector, kp_header, post_send_chunk, post_send_header_received,
    post_send_keys_unsampled, receive_post, received_with, receive_step_post, send_post, send_step_post,
};

verus! {

/// A transfer of `data` under way: the receiving side holds `rec` and the
/// sending side still holds the pieces `rem`.
pub open spec fn xfer(rec: Seq<u8>, rem: Seq<(nat, Seq<u8>)>, data: Seq<u8>) -> bool {
    rec + spec_flatten(rem) == data
}

/// A transfer starts with nothing received and every chunk still to send.
proof fn lemma_xfer_start(data: Seq<u8>)
    ensures
        xfer(seq![], spec_chunks(data, CHUNK_SIZE as nat, 0), data),
        data.len() > 0 ==> spec_chunks(data, CHUNK_SIZE as nat, 0).len() > 0,
{
    lemma_chunks_flatten(data, CHUNK_SIZE as nat, 0);
    assert(seq![] + spec_flatten(spec_chunks(data, CHUNK_SIZE as nat, 0)) =~= data);
}

/// Handing over the next piece keeps a transfer going.
proof fn lemma_xfer_step(rec: Seq<u8>, rem: Seq<(nat, Seq<u8>)>, data: Seq<u8>)
    requires
        xfer(rec, rem, data),
        rem.len() > 0,
    ensures
        xfer(rec + rem[0].1, rem.drop_first(), data),
{
    assert(spec_flatten(rem) == rem[0].1 + spec_flatten(rem.drop_first()));
    assert(rec + rem[0].1 + spec_flatten(rem.drop_first()) =~= rec + spec_flatten(rem));
}

/// What a transfer has delivered is a prefix of its data.
proof fn lemma_xfer_prefix(rec: Seq<u8>, rem: Seq<(nat, Seq<u8>)>, data: Seq<u8>)
    requires
        xfer(rec, rem, data),
    ensures
        rec.len() <= data.len(),
        data.take(rec.len() as int) == rec,
        rec.len() >= data.len() ==> rec == data,
{
    assert(data.take(rec.len() as int) =~= rec);
    if rec.len() >= data.len() {
        assert(rec =~= data);
    }
}

/// One step of an encoder, over its view.
proof fn lemma_enc_step(old: SimpleEncoder, new: SimpleEncoder, chunk: Option<Chunk>)
    requires
        enc_step(old, new, chunk),
    ensures
        enc_view(old).len() == old.chunks@.len(),
        enc_view(old).len() > 0 ==> (chunk matches Some(c) && c.data@ == enc_view(old)[0].1
            && enc_view(new) == enc_view(old).drop_first()),
        enc_view(old).len() == 0 ==> chunk is None && enc_view(new) == enc_view(old),
{
    if old.chunks@.len() > 0 {
        assert(enc_view(new) =~= enc_view(old).drop_first());
    } else {
        assert(enc_view(new) =~= enc_view(old));
    }
}

/// The epoch key that the encapsulating party outputs in epoch `e` for the
/// key pair drawn from `seed` and the encapsulation randomness `rnd`.
pub open spec fn pair_key(seed: Seq<u8>, rnd: Seq<u8>, e: u64) -> Seq<u8> {
    spec_kdf_ok(spec_ml_kem_768_encapsulate1(kp_header(spec_ml_kem_768_compressed_key_pair(seed)), rnd).2, e)
}

/// The responder's braid has encapsulated to the received header (and
/// output its epoch key).
pub open spec fn encapsulated(b: BraidState) -> bool {
    ||| b is Ct1Sampled
    ||| b is EkReceivedCt1Sampled
    ||| b is Ct1Acknowledged
    ||| b is Ct2Sampled
}

/// The second ciphertext part and its MAC under way: whatever has arrived
/// and is still to come starts with `ct2`.
pub open spec fn ct2_xfer(rec: Seq<u8>, rem: Seq<(nat, Seq<u8>)>, ct2: Seq<u8>) -> bool {
    let d = rec + spec_flatten(rem);
    &&& ct2.len() == CT2_SIZE
    &&& d.len() >= CT2_SIZE
    &&& d.take(CT2_SIZE as int) == ct2
}

/// Where the braid `a` that samples the key pair of epoch `e` and the braid
/// `b` that encapsulates to it stand, when every message either sent was
/// received by the other in order: `seed` is the seed of the key pair (once
/// drawn) and `rnd` the randomness of the encapsulation (once drawn). Each
/// piece of data under way is what was sent, split between what the
/// receiver holds and what the sender still holds. The sampling braid may
/// still be sending the last part of the epoch before, as encapsulator.
pub open spec fn braid_pair_inv(a: BraidState, b: BraidState, e: u64, seed: Seq<u8>, rnd: Seq<u8>) -> bool {
    let kp = spec_ml_kem_768_compressed_key_pair(seed);
    let ev = kp_ek_vector(kp);
    let enc1 = spec_ml_kem_768_encapsulate1(kp_header(kp), rnd);
    let ct2 = spec_ml_kem_768_encapsulate2(enc1.0, ev);
    &&& e >= 1
    &&& seed.len() == 64
    &&& (if a is Ct2Sampled { a.epoch() + 1 == e } else { a.epoch() == e })
    &&& b.epoch() == e
    &&& match a {
        BraidState::KeysUnsampled { .. } => b matches BraidState::NoHeaderReceived { nhr_header_decoder, .. }
            && nhr_header_decoder.received@ == Seq::<u8>::empty(),
        BraidState::Ct2Sampled { .. } => b matches BraidState::NoHeaderReceived { nhr_header_decoder, .. }
            && nhr_header_decoder.received@ == Seq::<u8>::empty(),
        BraidState::KeysSampled { ks_dk, ks_ek_vector, ks_header_encoder, .. } => {
            &&& ks_dk@ == kp
            &&& ks_ek_vector@ == ev
            &&& match b {
                BraidState::NoHeaderReceived { nhr_header_decoder, .. } => {
                    let h = nhr_header_decoder.received@ + spec_flatten(enc_view(ks_header_encoder));
                    &&& h.len() == HEADER_SIZE + MAC_SIZE
                    &&& h.take(HEADER_SIZE as int) == kp_header(kp)
                },
                BraidState::HeaderReceived { hr_ek_seed, hr_hek, hr_ek_decoder, .. } => {
                    &&& hr_ek_seed@ + hr_hek@ == kp_header(kp)
                    &&& hr_ek_decoder.received@ == Seq::<u8>::empty()
                },
                _ => false,
            }
        },
        BraidState::HeaderSent { hs_dk, hs_ct1_decoder, hs_ek_encoder, .. } => {
            &&& hs_dk@ == kp
            &&& match b {
                BraidState::Ct1Sampled { ct1s_encaps_secret, ct1s_ct1, ct1s_ek_decoder, ct1s_ct1_encoder, .. } => {
                    &&& ct1s_encaps_secret@ == enc1.0
                    &&& ct1s_ct1@ == enc1.1
                    &&& xfer(hs_ct1_decoder.received@, enc_view(ct1s_ct1_encoder), enc1.1)
                    &&& xfer(ct1s_ek_decoder.received@, enc_view(hs_ek_encoder), ev)
                },
                BraidState::EkReceivedCt1Sampled {
                    ekrct1s_encaps_secret, ekrct1s_ek_vector, ekrct1s_ct1, ekrct1s_ct1_encoder, ..
                } => {
                    &&& ekrct1s_encaps_secret@ == enc1.0
                    &&& ekrct1s_ct1@ == enc1.1
                    &&& ekrct1s_ek_vector@ == ev
                    &&& xfer(hs_ct1_decoder.received@, enc_view(ekrct1s_ct1_encoder), enc1.1)
                },
                _ => false,
            }
        },
        BraidState::Ct1Received { ct1r_dk, ct1r_ct1, ct1r_ek_encoder, .. } => {
            &&& ct1r_dk@ == kp
            &&& ct1r_ct1 matches Some(x) && x@ == enc1.1
            &&& match b {
                BraidState::Ct1Sampled { ct1s_encaps_secret, ct1s_ek_decoder, .. } => {
                    &&& ct1s_encaps_secret@ == enc1.0
                    &&& xfer(ct1s_ek_decoder.received@, enc_view(ct1r_ek_encoder), ev)
                },
                BraidState::Ct1Acknowledged { ct1a_encaps_secret, ct1a_ek_decoder, .. } => {
                    &&& ct1a_encaps_secret@ == enc1.0
                    &&& xfer(ct1a_ek_decoder.received@, enc_view(ct1r_ek_encoder), ev)
                },
                BraidState::EkReceivedCt1Sampled { ekrct1s_encaps_secret, ekrct1s_ek_vector, .. } => {
                    &&& ekrct1s_encaps_secret@ == enc1.0
                    &&& ekrct1s_ek_vector@ == ev
                },
                BraidState::Ct2Sampled { ct2s_ct2_encoder, .. } => ct2_xfer(seq![], enc_view(ct2s_ct2_encoder), ct2),
                _ => false,
            }
        },
        BraidState::EkSentCt1Received { eksct1r_dk, eksct1r_ct1, eksct1r_ct2_decoder, .. } => {
            &&& eksct1r_dk@ == kp
            &&& eksct1r_ct1 matches Some(x) && x@ == enc1.1
            &&& b matches BraidState::Ct2Sampled { ct2s_ct2_encoder, .. }
                && ct2_xfer(eksct1r_ct2_decoder.received@, enc_view(ct2s_ct2_encoder), ct2)
        },
        _ => false,
    }
}

/// The state that sends the second ciphertext part starts its transfer.
proof fn lemma_ct2_start(s: BraidState, e: u64, auth: Authenticator, es: Seq<u8>, ct1: Seq<u8>, ev: Seq<u8>)
    requires
        is_ct2_state(s, e, auth, es, ct1, ev),
    ensures
        s matches BraidState::Ct2Sampled { ct2s_ct2_encoder, .. }
            && ct2_xfer(seq![], enc_view(ct2s_ct2_encoder), spec_ml_kem_768_encapsulate2(es, ev)),
{
    let ct2 = spec_ml_kem_768_encapsulate2(es, ev);
    let d = ct2 + ct_mac(auth, e, ct1 + ct2);
    lemma_xfer_start(d);
    assert(d.take(CT2_SIZE as int) =~= ct2);
}

/// One exchange in which the initiator's braid sends and the responder's
/// braid receives that message, both without error, keeps the two in
/// step. Neither outputs a key, and once the responder has encapsulated,
/// the key pair and the encapsulation stay the same.
proof fn lemma_exchange_from_initiator(
    a0: BraidState,
    b0: BraidState,
    a1: BraidState,
    b1: BraidState,
    e: u64,
    seed: Seq<u8>,
    rnd: Seq<u8>,
    msg: SCKAMessage,
    se: u64,
    out_a: Option<SCKAOutputKey>,
    re: u64,
    out_b: Option<SCKAOutputKey>,
) -> (res: (Seq<u8>, Seq<u8>))
    requires
        braid_pair_inv(a0, b0, e, seed, rnd),
        send_step_post(a0, Ok::<(SCKAMessage, (u64, Option<SCKAOutputKey>), BraidState), &'static str>((msg, (se, out_a), a1))),
        receive_step_post(b0, msg, Ok::<(u64, Option<SCKAOutputKey>, BraidState), &'static str>((re, out_b, b1))),
    ensures
        out_a is None,
        out_b is None,
        braid_pair_inv(a1, b1, e, res.0, res.1),
        encapsulated(b0) ==> res == (seed, rnd) && encapsulated(b1),
        encapsulated(b1) ==> encapsulated(b0),
{
    let r: SendStep<'static> = Ok((msg, (se, out_a), a1));
    let kp = spec_ml_kem_768_compressed_key_pair(seed);
    let ev = kp_ek_vector(kp);
    match a0 {
        BraidState::KeysUnsampled { ku_epoch, ku_auth } => {
            let seed1 = choose|seed1: Seq<u8>| seed1.len() == 64 && #[trigger] post_send_keys_unsampled(
                ku_epoch, ku_auth, spec_ml_kem_768_compressed_key_pair(seed1), r);
            let kp1 = spec_ml_kem_768_compressed_key_pair(seed1);
            assert(kp1.len() == DECAPSULATION_KEY_SIZE);
            let h = kp_header(kp1) + hdr_mac(ku_auth, ku_epoch, kp_header(kp1).subrange(0, 32), kp_header(kp1).subrange(32, 64));
            let chunks = spec_chunks(h, CHUNK_SIZE as nat, 0);
            lemma_xfer_start(h);
            lemma_chunks_shape(h, CHUNK_SIZE as nat, 0);
            lemma_xfer_step(seq![], chunks, h);
            let c = msg.data->0;
            assert(seq![] + chunks[0].1 =~= c.data@);
            assert(received_with(b0->nhr_header_decoder, msg.data) =~= c.data@);
            assert(h.take(HEADER_SIZE as int) =~= kp_header(kp1));
            (seed1, rnd)
        },
        BraidState::KeysSampled { ks_epoch, ks_auth, ks_dk, ks_ek_seed, ks_ek_vector, ks_hek, ks_header_encoder } => {
            let enc2 = choose|enc2: SimpleEncoder| #[trigger] post_send_chunk(ks_epoch, SCKAMessageType::Hdr,
                ks_header_encoder, enc2, BraidState::KeysSampled {
                    ks_epoch, ks_auth, ks_dk, ks_ek_seed, ks_ek_vector, ks_hek, ks_header_encoder: enc2,
                }, r);
            lemma_enc_step(ks_header_encoder, enc2, msg.data);
            if let BraidState::NoHeaderReceived { nhr_header_decoder, .. } = b0 {
                let rem = enc_view(ks_header_encoder);
                let h = nhr_header_decoder.received@ + spec_flatten(rem);
                let rec2 = received_with(nhr_header_decoder, msg.data);
                if rem.len() > 0 {
                    lemma_xfer_step(nhr_header_decoder.received@, rem, h);
                } else {
                    assert(rec2 =~= nhr_header_decoder.received@);
                }
                assert(xfer(rec2, enc_view(enc2), h));
                lemma_xfer_prefix(rec2, enc_view(enc2), h);
                if rec2.len() >= HEADER_SIZE + MAC_SIZE {
                    assert(rec2.subrange(0, 32) + rec2.subrange(32, 64) =~= h.take(HEADER_SIZE as int));
                }
            }
            (seed, rnd)
        },
        BraidState::HeaderSent { hs_epoch, hs_auth, hs_dk, hs_ct1_decoder, hs_ek_encoder } => {
            let enc2 = choose|enc2: SimpleEncoder| #[trigger] post_send_chunk(hs_epoch, SCKAMessageType::Ek,
                hs_ek_encoder, enc2, BraidState::HeaderSent { hs_epoch, hs_auth, hs_dk, hs_ct1_decoder, hs_ek_encoder: enc2 }, r);
            lemma_enc_step(hs_ek_encoder, enc2, msg.data);
            if let BraidState::Ct1Sampled { ct1s_ek_decoder, .. } = b0 {
                let rem = enc_view(hs_ek_encoder);
                lemma_xfer_step(ct1s_ek_decoder.received@, rem, ev);
                let rec2 = ct1s_ek_decoder.received@ + msg.data->0.data@;
                lemma_xfer_prefix(rec2, enc_view(enc2), ev);
                assert(ev.len() == EK_VECTOR_SIZE);
                if rec2.len() >= EK_VECTOR_SIZE {
                    assert(rec2.take(EK_VECTOR_SIZE as int) =~= ev);
                }
            }
            (seed, rnd)
        },
        BraidState::Ct1Received { ct1r_epoch, ct1r_auth, ct1r_dk, ct1r_ct1, ct1r_ek_encoder } => {
            let enc2 = choose|enc2: SimpleEncoder| #[trigger] post_send_chunk(ct1r_epoch, SCKAMessageType::EkCt1Ack,
                ct1r_ek_encoder, enc2, BraidState::Ct1Received {
                    ct1r_epoch, ct1r_auth, ct1r_dk, ct1r_ct1, ct1r_ek_encoder: enc2,
                }, r);
            lemma_enc_step(ct1r_ek_encoder, enc2, msg.data);
            let rem = enc_view(ct1r_ek_encoder);
            assert(ev.len() == EK_VECTOR_SIZE);
            match b0 {
                BraidState::Ct1Sampled { ct1s_auth, ct1s_encaps_secret, ct1s_ct1, ct1s_ek_decoder, .. } => {
                    if rem.len() > 0 {
                        lemma_xfer_step(ct1s_ek_decoder.received@, rem, ev);
                        let rec2 = ct1s_ek_decoder.received@ + msg.data->0.data@;
                        lemma_xfer_prefix(rec2, enc_view(enc2), ev);
                        if rec2.len() >= EK_VECTOR_SIZE {
                            assert(rec2.take(EK_VECTOR_SIZE as int) =~= ev);
                            lemma_ct2_start(b1, e, ct1s_auth, ct1s_encaps_secret@, ct1s_ct1@, ev);
                        }
                    }
                },
                BraidState::Ct1Acknowledged { ct1a_auth, ct1a_encaps_secret, ct1a_ct1, ct1a_ek_decoder, .. } => {
                    let rec2 = received_with(ct1a_ek_decoder, msg.data);
                    if rem.len() > 0 {
                        lemma_xfer_step(ct1a_ek_decoder.received@, rem, ev);
                    } else {
                        assert(rec2 =~= ct1a_ek_decoder.received@);
                    }
                    assert(xfer(rec2, enc_view(enc2), ev));
                    lemma_xfer_prefix(rec2, enc_view(enc2), ev);
                    if rec2.len() >= EK_VECTOR_SIZE {
                        assert(rec2.take(EK_VECTOR_SIZE as int) =~= ev);
                        lemma_ct2_start(b1, e, ct1a_auth, ct1a_encaps_secret@, ct1a_ct1@, ev);
                    }
                },
                BraidState::EkReceivedCt1Sampled { ekrct1s_auth, ekrct1s_encaps_secret, ekrct1s_ct1, ekrct1s_ek_vector, .. } => {
                    lemma_ct2_start(b1, e, ekrct1s_auth, ekrct1s_encaps_secret@, ekrct1s_ct1@, ekrct1s_ek_vector@);
                },
                _ => {},
            }
            (seed, rnd)
        },
        _ => (seed, rnd),
    }
}

/// One exchange in which the responder's braid sends and the initiator's
/// braid receives that message, both without error. The responder outputs
/// a key only when it encapsulates, and that key is the pair's key for the
/// new encapsulation; the initiator outputs a key only when it completes
/// the second ciphertext part, and, where incremental ML-KEM recovers the
/// encapsulated secret, that key is the pair's key. Otherwise the two stay
/// in step.
proof fn lemma_exchange_from_responder(
    a0: BraidState,
    b0: BraidState,
    a1: BraidState,
    b1: BraidState,
    e: u64,
    seed: Seq<u8>,
    rnd: Seq<u8>,
    msg: SCKAMessage,
    se: u64,
    out_b: Option<SCKAOutputKey>,
    re: u64,
    out_a: Option<SCKAOutputKey>,
) -> (res: (Seq<u8>, Seq<u8>))
    requires
        braid_pair_inv(a0, b0, e, seed, rnd),
        kem_incremental_recovers(seed),
        send_step_post(b0, Ok::<(SCKAMessage, (u64, Option<SCKAOutputKey>), BraidState), &'static str>((msg, (se, out_b), b1))),
        receive_step_post(a0, msg, Ok::<(u64, Option<SCKAOutputKey>, BraidState), &'static str>((re, out_a, a1))),
    ensures
        out_a matches Some(ka) ==> ka.epoch == e && ka.key@ == pair_key(seed, rnd, e) && encapsulated(b0)
            && e < u64::MAX && braid_pair_inv(b1, a1, (e + 1) as u64, res.0, res.1),
        out_a is None ==> braid_pair_inv(a1, b1, e, res.0, res.1),
        out_b matches Some(kb) ==> kb.epoch == e && kb.key@ == pair_key(res.0, res.1, e) && !encapsulated(b0)
            && encapsulated(b1),
        encapsulated(b0) ==> res == (seed, rnd) && out_b is None && encapsulated(b1),
        out_b is None && !encapsulated(b0) ==> !encapsulated(b1),
{
    let r: SendStep<'static> = Ok((msg, (se, out_b), b1));
    let kp = spec_ml_kem_768_compressed_key_pair(seed);
    let ev = kp_ek_vector(kp);
    let enc1 = spec_ml_kem_768_encapsulate1(kp_header(kp), rnd);
    let ct2 = spec_ml_kem_768_encapsulate2(enc1.0, ev);
    match b0 {
        BraidState::HeaderReceived { hr_epoch, hr_auth, hr_ek_seed, hr_hek, hr_ek_decoder } => {
            let rnd1 = choose|rnd1: Seq<u8>| rnd1.len() == 32 && #[trigger] post_send_header_received(
                hr_epoch, hr_auth, hr_ek_seed, hr_hek, hr_ek_decoder, rnd1, r);
            let ct1 = spec_ml_kem_768_encapsulate1(hr_ek_seed@ + hr_hek@, rnd1).1;
            assert(ct1.len() == CT1_SIZE);
            let chunks = spec_chunks(ct1, CHUNK_SIZE as nat, 0);
            lemma_xfer_start(ct1);
            lemma_xfer_step(seq![], chunks, ct1);
            assert(seq![] + chunks[0].1 =~= msg.data->0.data@);
            lemma_xfer_start(ev);
            (seed, rnd1)
        },
        BraidState::Ct1Sampled {
            ct1s_epoch, ct1s_auth, ct1s_encaps_secret, ct1s_ct1, ct1s_hek, ct1s_ek_seed, ct1s_ek_decoder, ct1s_ct1_encoder,
        } => {
            let enc2 = choose|enc2: SimpleEncoder| #[trigger] post_send_chunk(ct1s_epoch, SCKAMessageType::Ct1,
                ct1s_ct1_encoder, enc2, BraidState::Ct1Sampled {
                    ct1s_epoch, ct1s_auth, ct1s_encaps_secret, ct1s_ct1, ct1s_hek, ct1s_ek_seed, ct1s_ek_decoder,
                    ct1s_ct1_encoder: enc2,
                }, r);
            lemma_enc_step(ct1s_ct1_encoder, enc2, msg.data);
            if let BraidState::HeaderSent { hs_ct1_decoder, .. } = a0 {
                let rem = enc_view(ct1s_ct1_encoder);
                if rem.len() > 0 {
                    lemma_xfer_step(hs_ct1_decoder.received@, rem, enc1.1);
                    let rec2 = hs_ct1_decoder.received@ + msg.data->0.data@;
                    lemma_xfer_prefix(rec2, enc_view(enc2), enc1.1);
                    if rec2.len() >= CT1_SIZE {
                        assert(rec2.take(CT1_SIZE as int) =~= enc1.1);
                    }
                }
            }
            (seed, rnd)
        },
        BraidState::EkReceivedCt1Sampled {
            ekrct1s_epoch, ekrct1s_auth, ekrct1s_encaps_secret, ekrct1s_ek_vector, ekrct1s_ek_seed, ekrct1s_ct1,
            ekrct1s_ct1_encoder,
        } => {
            let enc2 = choose|enc2: SimpleEncoder| #[trigger] post_send_chunk(ekrct1s_epoch, SCKAMessageType::Ct1,
                ekrct1s_ct1_encoder, enc2, BraidState::EkReceivedCt1Sampled {
                    ekrct1s_epoch, ekrct1s_auth, ekrct1s_encaps_secret, ekrct1s_ek_vector, ekrct1s_ek_seed, ekrct1s_ct1,
                    ekrct1s_ct1_encoder: enc2,
                }, r);
            lemma_enc_step(ekrct1s_ct1_encoder, enc2, msg.data);
            if let BraidState::HeaderSent { hs_ct1_decoder, .. } = a0 {
                let rem = enc_view(ekrct1s_ct1_encoder);
                lemma_xfer_step(hs_ct1_decoder.received@, rem, enc1.1);
                let rec2 = hs_ct1_decoder.received@ + msg.data->0.data@;
                lemma_xfer_prefix(rec2, enc_view(enc2), enc1.1);
                if rec2.len() >= CT1_SIZE {
                    assert(rec2.take(CT1_SIZE as int) =~= enc1.1);
                }
            }
            (seed, rnd)
        },
        BraidState::Ct2Sampled { ct2s_epoch, ct2s_auth, ct2s_ct2_encoder } => {
            let enc2 = choose|enc2: SimpleEncoder| #[trigger] post_send_chunk(ct2s_epoch, SCKAMessageType::Ct2,
                ct2s_ct2_encoder, enc2, BraidState::Ct2Sampled { ct2s_epoch, ct2s_auth, ct2s_ct2_encoder: enc2 }, r);
            lemma_enc_step(ct2s_ct2_encoder, enc2, msg.data);
            let rem = enc_view(ct2s_ct2_encoder);
            match a0 {
                BraidState::Ct1Received { .. } => {
                    if rem.len() > 0 {
                        let d = seq![] + spec_flatten(rem);
                        lemma_xfer_step(seq![], rem, d);
                        assert(seq![] + rem[0].1 =~= msg.data->0.data@);
                    }
                },
                BraidState::EkSentCt1Received { eksct1r_ct2_decoder, .. } => {
                    if rem.len() > 0 {
                        let d = eksct1r_ct2_decoder.received@ + spec_flatten(rem);
                        lemma_xfer_step(eksct1r_ct2_decoder.received@, rem, d);
                        let rec2 = eksct1r_ct2_decoder.received@ + msg.data->0.data@;
                        lemma_xfer_prefix(rec2, enc_view(enc2), d);
                        if rec2.len() >= CT2_SIZE + MAC_SIZE {
                            let cm = rec2.take((CT2_SIZE + MAC_SIZE) as int);
                            assert(cm.take(CT2_SIZE as int) =~= d.take(CT2_SIZE as int));
                            assert(spec_ml_kem_768_decapsulate_compressed(kp, enc1.1, ct2) == enc1.2);
                        }
                    }
                },
                _ => {},
            }
            (seed, rnd)
        },
        _ => (seed, rnd),
    }
}

/// One exchange between the initiator's braid (`a0` to `a1`) and the
/// responder's braid (`b0` to `b1`): the initiator's sends when
/// `from_initiator` holds, the responder's otherwise, and the other one
/// receives that message, both without error; `out_a` and `out_b` are the
/// keys the two report in it.
pub open spec fn braid_exchange(
    from_initiator: bool,
    a0: BraidState,
    b0: BraidState,
    a1: BraidState,
    b1: BraidState,
    out_a: Option<SCKAOutputKey>,
    out_b: Option<SCKAOutputKey>,
) -> bool {
    if from_initiator {
        exists|msg: SCKAMessage, se: u64, re: u64|
            #[trigger] send_post(a0, a1, Ok::<(SCKAMessage, (u64, Option<SCKAOutputKey>)), &'static str>((msg, (se, out_a))))
            && #[trigger] receive_post(b0, msg, b1, Ok::<(u64, Option<SCKAOutputKey>), &'static str>((re, out_b)))
    } else {
        exists|msg: SCKAMessage, se: u64, re: u64|
            #[trigger] send_post(b0, b1, Ok::<(SCKAMessage, (u64, Option<SCKAOutputKey>)), &'static str>((msg, (se, out_b))))
            && #[trigger] receive_post(a0, msg, a1, Ok::<(u64, Option<SCKAOutputKey>), &'static str>((re, out_a)))
    }
}

/// Exchange `k` of a run.
pub open spec fn braid_exchange_at(
    from_a: Seq<bool>,
    sa: Seq<BraidState>,
    sb: Seq<BraidState>,
    oa: Seq<Option<SCKAOutputKey>>,
    ob: Seq<Option<SCKAOutputKey>>,
    k: int,
) -> bool {
    braid_exchange(from_a[k], sa[k], sb[k], sa[k + 1], sb[k + 1], oa[k], ob[k])
}

/// A run of exchanges: `sa[k]` and `sb[k]` are the initiator's and the
/// responder's braid before exchange `k`, `sa[k + 1]` and `sb[k + 1]` after
/// it; `from_a[k]` tells who sends in it and `oa[k]`, `ob[k]` are the keys
/// the two report.
pub open spec fn braid_run(
    from_a: Seq<bool>,
    sa: Seq<BraidState>,
    sb: Seq<BraidState>,
    oa: Seq<Option<SCKAOutputKey>>,
    ob: Seq<Option<SCKAOutputKey>>,
) -> bool {
    &&& sa.len() == from_a.len() + 1
    &&& sb.len() == from_a.len() + 1
    &&& oa.len() == from_a.len()
    &&& ob.len() == from_a.len()
    &&& forall|k: int| 0 <= k < from_a.len() ==> #[trigger] braid_exchange_at(from_a, sa, sb, oa, ob, k)
}

/// The key that a braid reports in exchange `i`: the initiator's where
/// `side` holds, the responder's otherwise.
pub open spec fn out_of(
    oa: Seq<Option<SCKAOutputKey>>,
    ob: Seq<Option<SCKAOutputKey>>,
    i: int,
    side: bool,
) -> Option<SCKAOutputKey> {
    if side { oa[i] } else { ob[i] }
}

/// The keys reported in the first `k` exchanges, while the braids are at
/// epoch `e`: each is of an epoch from 1 to `e`; those of epoch `e` are
/// `key`, and there are some exactly when `encap` holds; any two of the same
/// epoch are the same key.
pub open spec fn outputs_agree(
    oa: Seq<Option<SCKAOutputKey>>,
    ob: Seq<Option<SCKAOutputKey>>,
    k: int,
    e: u64,
    key: Seq<u8>,
    encap: bool,
) -> bool {
    &&& forall|i: int, s: bool| 0 <= i < k && (#[trigger] out_of(oa, ob, i, s)) is Some ==> {
        &&& 1 <= out_of(oa, ob, i, s)->0.epoch <= e
        &&& out_of(oa, ob, i, s)->0.epoch == e ==> out_of(oa, ob, i, s)->0.key@ == key && encap
    }
    &&& encap ==> exists|i: int, s: bool| 0 <= i < k && (#[trigger] out_of(oa, ob, i, s)) is Some
        && out_of(oa, ob, i, s)->0.epoch == e
    &&& forall|i1: int, s1: bool, i2: int, s2: bool|
        0 <= i1 < k && 0 <= i2 < k && (#[trigger] out_of(oa, ob, i1, s1)) is Some
            && (#[trigger] out_of(oa, ob, i2, s2)) is Some
            && out_of(oa, ob, i1, s1)->0.epoch == out_of(oa, ob, i2, s2)->0.epoch
            ==> out_of(oa, ob, i1, s1)->0.key@ == out_of(oa, ob, i2, s2)->0.key@
}

/// One more exchange keeps the reported keys in agreement: it reports no
/// key, or the encapsulating braid's key of the epoch (the first of that
/// epoch), or the sampling braid's key of the epoch, which is the key
/// already reported for it, after which the braids move to the next epoch.
proof fn lemma_outputs_step(
    oa: Seq<Option<SCKAOutputKey>>,
    ob: Seq<Option<SCKAOutputKey>>,
    m: int,
    e: u64,
    key: Seq<u8>,
    encap: bool,
    e2: u64,
    key2: Seq<u8>,
    encap2: bool,
)
    requires
        outputs_agree(oa, ob, m, e, key, encap),
        0 <= m < oa.len(),
        m < ob.len(),
        oa[m] is None || ob[m] is None,
        oa[m] is None && ob[m] is None ==> e2 == e && encap2 == encap && (encap ==> key2 == key),
        oa[m] is Some || ob[m] is Some ==> ({
            let o = if oa[m] is Some { oa[m]->0 } else { ob[m]->0 };
            &&& o.epoch == e
            &&& e >= 1
            &&& ((!encap && encap2 && e2 == e && o.key@ == key2) || (encap && !encap2 && e2 == e + 1 && o.key@ == key))
        }),
    ensures
        outputs_agree(oa, ob, m + 1, e2, key2, encap2),
{
    let k = m + 1;
    let side_m = oa[m] is Some;
    assert forall|i: int, s: bool| 0 <= i < k && (#[trigger] out_of(oa, ob, i, s)) is Some implies {
        &&& 1 <= out_of(oa, ob, i, s)->0.epoch <= e2
        &&& out_of(oa, ob, i, s)->0.epoch == e2 ==> out_of(oa, ob, i, s)->0.key@ == key2 && encap2
    } by {
        if i < m {
            assert(out_of(oa, ob, i, s)->0.epoch == e ==> out_of(oa, ob, i, s)->0.key@ == key && encap);
        }
    }
    if encap2 {
        if oa[m] is None && ob[m] is None {
            let (i0, s0) = choose|i: int, s: bool| 0 <= i < m && (#[trigger] out_of(oa, ob, i, s)) is Some
                && out_of(oa, ob, i, s)->0.epoch == e;
            assert(0 <= i0 < k && out_of(oa, ob, i0, s0) is Some && out_of(oa, ob, i0, s0)->0.epoch == e2);
        } else {
            assert(out_of(oa, ob, m, side_m) is Some && out_of(oa, ob, m, side_m)->0.epoch == e2);
        }
    }
    assert forall|i1: int, s1: bool, i2: int, s2: bool|
        0 <= i1 < k && 0 <= i2 < k && (#[trigger] out_of(oa, ob, i1, s1)) is Some
            && (#[trigger] out_of(oa, ob, i2, s2)) is Some
            && out_of(oa, ob, i1, s1)->0.epoch == out_of(oa, ob, i2, s2)->0.epoch
        implies out_of(oa, ob, i1, s1)->0.key@ == out_of(oa, ob, i2, s2)->0.key@ by {
        if i1 < m && i2 < m {
        } else if i1 == m && i2 == m {
            assert(s1 == s2);
        } else if i1 == m {
            assert(out_of(oa, ob, i2, s2)->0.epoch == e ==> out_of(oa, ob, i2, s2)->0.key@ == key && encap);
        } else {
            assert(out_of(oa, ob, i1, s1)->0.epoch == e ==> out_of(oa, ob, i1, s1)->0.key@ == key && encap);
        }
    }
}

/// The first `k` exchanges of a run from fresh braids leave the braids in
/// step in some epoch `e`, one of them sampling (the initiator's where
/// `a_samples` holds) and the other encapsulating; the keys reported so
/// far agree, those of epoch `e` being the pair's key. While the
/// initiator's braid has reported no key, the epoch is the first and the
/// initiator's braid samples.
proof fn lemma_run_prefix(
    ss: Seq<u8>,
    from_a: Seq<bool>,
    sa: Seq<BraidState>,
    sb: Seq<BraidState>,
    oa: Seq<Option<SCKAOutputKey>>,
    ob: Seq<Option<SCKAOutputKey>>,
    k: int,
) -> (res: (Seq<u8>, Seq<u8>, u64, bool))
    requires
        forall|seed: Seq<u8>| seed.len() == 64 ==> #[trigger] kem_incremental_recovers(seed),
        is_initiator_braid(MlKemBraid { state: sa[0] }, ss),
        is_responder_braid(MlKemBraid { state: sb[0] }, ss),
        braid_run(from_a, sa, sb, oa, ob),
        0 <= k <= from_a.len(),
    ensures
        ({
            let (seed, rnd, e, a_samples) = res;
            let x = if a_samples { sa[k] } else { sb[k] };
            let y = if a_samples { sb[k] } else { sa[k] };
            &&& braid_pair_inv(x, y, e, seed, rnd)
            &&& outputs_agree(oa, ob, k, e, pair_key(seed, rnd, e), encapsulated(y))
            &&& (forall|i: int| 0 <= i < k ==> oa[i] is None) ==> e == 1 && a_samples
        }),
    decreases k,
{
    if k == 0 {
        let seed0 = Seq::new(64, |i: int| 0u8);
        assert(sb[0]->nhr_header_decoder.received@ =~= Seq::<u8>::empty());
        (seed0, seed0, 1, true)
    } else {
        let m = k - 1;
        let (seed, rnd, e, a_s) = lemma_run_prefix(ss, from_a, sa, sb, oa, ob, m);
        assert(braid_exchange_at(from_a, sa, sb, oa, ob, m));
        let (x0, y0, x1, y1) = if a_s { (sa[m], sb[m], sa[k], sb[k]) } else { (sb[m], sa[m], sb[k], sa[k]) };
        let (ox, oy) = if a_s { (oa[m], ob[m]) } else { (ob[m], oa[m]) };
        let (msg, se, re) = if from_a[m] {
            choose|msg: SCKAMessage, se: u64, re: u64|
                #[trigger] send_post(sa[m], sa[k], Ok::<(SCKAMessage, (u64, Option<SCKAOutputKey>)), &'static str>((msg, (se, oa[m]))))
                && #[trigger] receive_post(sb[m], msg, sb[k], Ok::<(u64, Option<SCKAOutputKey>), &'static str>((re, ob[m])))
        } else {
            choose|msg: SCKAMessage, se: u64, re: u64|
                #[trigger] send_post(sb[m], sb[k], Ok::<(SCKAMessage, (u64, Option<SCKAOutputKey>)), &'static str>((msg, (se, ob[m]))))
                && #[trigger] receive_post(sa[m], msg, sa[k], Ok::<(u64, Option<SCKAOutputKey>), &'static str>((re, oa[m])))
        };
        if from_a[m] == a_s {
            let r2 = lemma_exchange_from_initiator(x0, y0, x1, y1, e, seed, rnd, msg, se, ox, re, oy);
            lemma_outputs_step(oa, ob, m, e, pair_key(seed, rnd, e), encapsulated(y0), e,
                pair_key(r2.0, r2.1, e), encapsulated(y1));
            (r2.0, r2.1, e, a_s)
        } else {
            let r2 = lemma_exchange_from_responder(x0, y0, x1, y1, e, seed, rnd, msg, se, oy, re, ox);
            if ox is Some {
                let e2 = (e + 1) as u64;
                lemma_outputs_step(oa, ob, m, e, pair_key(seed, rnd, e), encapsulated(y0), e2,
                    pair_key(r2.0, r2.1, e2), encapsulated(x1));
                (r2.0, r2.1, e2, !a_s)
            } else {
                lemma_outputs_step(oa, ob, m, e, pair_key(seed, rnd, e), encapsulated(y0), e,
                    pair_key(r2.0, r2.1, e), encapsulated(y1));
                (r2.0, r2.1, e, a_s)
            }
        }
    }
}

/// Both braid parties reach the same key in the same epoch. In a run from
/// the initiator's and the responder's braids for the same shared secret,
/// where every message one side sends is received by the other in order
/// and no step fails, the responder's braid has output a key before the
/// initiator's first one, and the initiator's first key is that same key of
/// the same epoch, the first — where incremental ML-KEM decapsulation
/// recovers the encapsulated secret.
pub proof fn law_epoch_key_agreed(
    ss: Seq<u8>,
    from_a: Seq<bool>,
    sa: Seq<BraidState>,
    sb: Seq<BraidState>,
    oa: Seq<Option<SCKAOutputKey>>,
    ob: Seq<Option<SCKAOutputKey>>,
    j: int,
)
    requires
        forall|seed: Seq<u8>| seed.len() == 64 ==> #[trigger] kem_incremental_recovers(seed),
        is_initiator_braid(MlKemBraid { state: sa[0] }, ss),
        is_responder_braid(MlKemBraid { state: sb[0] }, ss),
        braid_run(from_a, sa, sb, oa, ob),
        0 <= j < from_a.len(),
        oa[j] is Some,
        forall|m: int| 0 <= m < j ==> oa[m] is None,
    ensures
        exists|i: int| 0 <= i < j && ob[i] is Some,
        forall|i: int| 0 <= i < j && ob[i] is Some
            ==> oa[j]->0.key@ == ob[i]->0.key@ && oa[j]->0.epoch == ob[i]->0.epoch,
        oa[j]->0.epoch == 1,
{
    let (seed, rnd, e, a_s) = lemma_run_prefix(ss, from_a, sa, sb, oa, ob, j);
    assert(braid_exchange_at(from_a, sa, sb, oa, ob, j));
    if from_a[j] {
        let (msg, se, re) = choose|msg: SCKAMessage, se: u64, re: u64|
            #[trigger] send_post(sa[j], sa[j + 1], Ok::<(SCKAMessage, (u64, Option<SCKAOutputKey>)), &'static str>((msg, (se, oa[j]))))
            && #[trigger] receive_post(sb[j], msg, sb[j + 1], Ok::<(u64, Option<SCKAOutputKey>), &'static str>((re, ob[j])));
        lemma_exchange_from_initiator(sa[j], sb[j], sa[j + 1], sb[j + 1], 1, seed, rnd, msg, se, oa[j], re, ob[j]);
    } else {
        let (msg, se, re) = choose|msg: SCKAMessage, se: u64, re: u64|
            #[trigger] send_post(sb[j], sb[j + 1], Ok::<(SCKAMessage, (u64, Option<SCKAOutputKey>)), &'static str>((msg, (se, ob[j]))))
            && #[trigger] receive_post(sa[j], msg, sa[j + 1], Ok::<(u64, Option<SCKAOutputKey>), &'static str>((re, oa[j])));
        lemma_exchange_from_responder(sa[j], sb[j], sa[j + 1], sb[j + 1], 1, seed, rnd, msg, se, ob[j], re, oa[j]);
        let (i0, s0) = choose|i: int, s: bool| 0 <= i < j && (#[trigger] out_of(oa, ob, i, s)) is Some
            && out_of(oa, ob, i, s)->0.epoch == 1;
        assert(ob[i0] is Some);
        assert forall|i: int| 0 <= i < j && ob[i] is Some
            implies oa[j]->0.key@ == ob[i]->0.key@ && oa[j]->0.epoch == ob[i]->0.epoch by {
            assert(out_of(oa, ob, i, false) is Some);
        }
    }
}

/// Both braid parties agree on the key of every epoch. In a run from the
/// initiator's and the responder's braids for the same shared secret,
/// where every message one side sends is received by the other in order
/// and no step fails, any key that the initiator's braid outputs and any
/// key that the responder's braid outputs for the same epoch are the same
/// key — where incremental ML-KEM decapsulation recovers the encapsulated
/// secret.
pub proof fn law_every_epoch_key_agreed(
    ss: Seq<u8>,
    from_a: Seq<bool>,
    sa: Seq<BraidState>,
    sb: Seq<BraidState>,
    oa: Seq<Option<SCKAOutputKey>>,
    ob: Seq<Option<SCKAOutputKey>>,
)
    requires
        forall|seed: Seq<u8>| seed.len() == 64 ==> #[trigger] kem_incremental_recovers(seed),
        is_initiator_braid(MlKemBraid { state: sa[0] }, ss),
        is_responder_braid(MlKemBraid { state: sb[0] }, ss),
        braid_run(from_a, sa, sb, oa, ob),
    ensures
        forall|i1: int, i2: int| 0 <= i1 < from_a.len() && 0 <= i2 < from_a.len()
            && #[trigger] oa[i1] is Some && #[trigger] ob[i2] is Some && oa[i1]->0.epoch == ob[i2]->0.epoch
            ==> oa[i1]->0.key@ == ob[i2]->0.key@,
{
    lemma_run_prefix(ss, from_a, sa, sb, oa, ob, from_a.len() as int);
    assert forall|i1: int, i2: int| 0 <= i1 < from_a.len() && 0 <= i2 < from_a.len()
        && #[trigger] oa[i1] is Some && #[trigger] ob[i2] is Some && oa[i1]->0.epoch == ob[i2]->0.epoch
        implies oa[i1]->0.key@ == ob[i2]->0.key@ by {
        assert(out_of(oa, ob, i1, true) is Some && out_of(oa, ob, i2, false) is Some);
    }
}

} // verus!
