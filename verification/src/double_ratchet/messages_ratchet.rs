use vstd::prelude::*;
use crate::double_ratchet::ratchet_state::{StateDHRatchet, SkippedKey, skipped_view, has_skipped, skipped_unique};
use crate::kdf_chain::kdf_chain_impl::{KdfChain, spec_kdf_ck_chain, spec_kdf_ck_message, spec_kdf_rk_chain, spec_kdf_rk_root};
use crate::pqxdh::pqxdh_impl::{gen_curve_key_pair, spec_x25519_public};
use crate::util::constants::{NONCE_SIZE, TAG_SIZE};
use crate::util::helper_func::{bytes_equal, spec_u32_be};
use crate::util::keys::{MessageKey, X25519PublicKey};
use crate::util::libcrux_wrap::{
    libcrux_aead_decrypts_ad, libcrux_aead_encrypts_ad, spec_chacha20poly1305_decrypt, spec_chacha20poly1305_encrypt,
    spec_x25519_derive,
};
use crate::util::messages::{ECHeader, ec_header_bytes};

verus! {

/// Most message keys skipped in one chain.
pub const MAX_SKIP: u64 = 50;

/// A chain key after `k` symmetric steps.
pub open spec fn ck_iter(ck: Seq<u8>, k: nat) -> Seq<u8>
    decreases k,
{
    if k == 0 {
        ck
    } else {
        spec_kdf_ck_chain(ck_iter(ck, (k - 1) as nat))
    }
}

/// The skipped keys after storing, for each message number from `n` up to
/// `until`, the message key of the chain at `ck` under the public key `pk`
/// (a number already stored keeps its key).
pub open spec fn spec_skip_store(v: Seq<(Seq<u8>, u64, Seq<u8>)>, pk: Seq<u8>, ck: Seq<u8>, n: nat, until: nat) -> Seq<(Seq<u8>, u64, Seq<u8>)>
    decreases until - n,
{
    if n >= until {
        v
    } else {
        let v2 = if has_skipped(v, pk, n as u64) { v } else { v.push((pk, n as u64, spec_kdf_ck_message(ck))) };
        spec_skip_store(v2, pk, spec_kdf_ck_chain(ck), n + 1, until)
    }
}

/// Storing skipped keys keeps them unique.
pub proof fn lemma_skip_store_unique(v: Seq<(Seq<u8>, u64, Seq<u8>)>, pk: Seq<u8>, ck: Seq<u8>, n: nat, until: nat)
    requires
        skipped_unique(v),
    ensures
        skipped_unique(spec_skip_store(v, pk, ck, n, until)),
    decreases until - n,
{
    if n < until {
        let v2 = if has_skipped(v, pk, n as u64) { v } else { v.push((pk, n as u64, spec_kdf_ck_message(ck))) };
        if !has_skipped(v, pk, n as u64) {
            assert forall|i: int, j: int| 0 <= i < j < v2.len() implies
                !((#[trigger] v2[i]).0 == (#[trigger] v2[j]).0 && v2[i].1 == v2[j].1) by {
                if j == v.len() {
                    assert(v2[i] == v[i]);
                }
            }
        }
        lemma_skip_store_unique(v2, pk, spec_kdf_ck_chain(ck), n + 1, until);
    }
}

/// Storing skipped keys only appends, and only keys under `pk`.
proof fn lemma_skip_store_appends(v: Seq<(Seq<u8>, u64, Seq<u8>)>, pk: Seq<u8>, ck: Seq<u8>, n: nat, until: nat)
    ensures
        spec_skip_store(v, pk, ck, n, until).len() >= v.len(),
        spec_skip_store(v, pk, ck, n, until).take(v.len() as int) == v,
        forall|i: int| v.len() <= i < spec_skip_store(v, pk, ck, n, until).len()
            ==> (#[trigger] spec_skip_store(v, pk, ck, n, until)[i]).0 == pk,
    decreases until - n,
{
    if n < until {
        let v2 = if has_skipped(v, pk, n as u64) { v } else { v.push((pk, n as u64, spec_kdf_ck_message(ck))) };
        lemma_skip_store_appends(v2, pk, spec_kdf_ck_chain(ck), n + 1, until);
        let r = spec_skip_store(v2, pk, spec_kdf_ck_chain(ck), n + 1, until);
        assert(r == spec_skip_store(v, pk, ck, n, until));
        assert(r.take(v.len() as int) =~= v) by {
            assert(r.take(v2.len() as int).take(v.len() as int) =~= r.take(v.len() as int));
            assert(v2.take(v.len() as int) =~= v);
        }
        assert forall|i: int| v.len() <= i < r.len() implies (#[trigger] r[i]).0 == pk by {
            if i < v2.len() {
                assert(r[i] == r.take(v2.len() as int)[i]);
            }
        }
    } else {
        assert(v.take(v.len() as int) =~= v);
    }
}

/// Stepping a chain first and then `k` times is stepping it `k + 1` times.
proof fn lemma_ck_iter_shift(ck: Seq<u8>, k: nat)
    ensures
        ck_iter(spec_kdf_ck_chain(ck), k) == ck_iter(ck, k + 1),
    decreases k,
{
    if k > 0 {
        lemma_ck_iter_shift(ck, (k - 1) as nat);
        assert(ck_iter(spec_kdf_ck_chain(ck), k) == spec_kdf_ck_chain(ck_iter(spec_kdf_ck_chain(ck), (k - 1) as nat)));
        assert(ck_iter(ck, k + 1) == spec_kdf_ck_chain(ck_iter(ck, k)));
    } else {
        assert(ck_iter(ck, 1) == spec_kdf_ck_chain(ck_iter(ck, 0)));
    }
}

/// Storing skipped keys from `n` up to `until` under `pk`, where nothing
/// from `n` on is stored under `pk` yet, stores the chain's key for each
/// of those messages.
proof fn lemma_skip_store_has(v: Seq<(Seq<u8>, u64, Seq<u8>)>, pk: Seq<u8>, ck: Seq<u8>, n: nat, until: nat, i: nat)
    requires
        n <= i < until <= u64::MAX,
        forall|j: int| 0 <= j < v.len() && (#[trigger] v[j]).0 == pk ==> v[j].1 < n,
    ensures
        exists|idx: int| 0 <= idx < spec_skip_store(v, pk, ck, n, until).len()
            && #[trigger] spec_skip_store(v, pk, ck, n, until)[idx]
                == (pk, i as u64, spec_kdf_ck_message(ck_iter(ck, (i - n) as nat))),
    decreases until - n,
{
    assert(!has_skipped(v, pk, n as u64));
    let v2 = v.push((pk, n as u64, spec_kdf_ck_message(ck)));
    let r = spec_skip_store(v2, pk, spec_kdf_ck_chain(ck), n + 1, until);
    assert(r == spec_skip_store(v, pk, ck, n, until));
    if i == n {
        lemma_skip_store_appends(v2, pk, spec_kdf_ck_chain(ck), n + 1, until);
        assert(r[v.len() as int] == r.take(v2.len() as int)[v.len() as int]);
        assert(r[v.len() as int] == (pk, i as u64, spec_kdf_ck_message(ck_iter(ck, 0))));
    } else {
        lemma_skip_store_has(v2, pk, spec_kdf_ck_chain(ck), n + 1, until, i);
        lemma_ck_iter_shift(ck, (i - n - 1) as nat);
        let idx = choose|idx: int| 0 <= idx < r.len()
            && #[trigger] r[idx] == (pk, i as u64, spec_kdf_ck_message(ck_iter(spec_kdf_ck_chain(ck), (i - (n + 1)) as nat)));
        assert(r[idx] == (pk, i as u64, spec_kdf_ck_message(ck_iter(ck, (i - n) as nat))));
    }
}

/// Removing a skipped key keeps them unique.
pub proof fn lemma_skipped_remove(v: Seq<SkippedKey>, i: int)
    requires
        0 <= i < v.len(),
        skipped_unique(skipped_view(v)),
    ensures
        skipped_view(v.remove(i)) == skipped_view(v).remove(i),
        skipped_unique(skipped_view(v.remove(i))),
{
    assert(skipped_view(v.remove(i)) =~= skipped_view(v).remove(i));
    let w = skipped_view(v);
    let w2 = w.remove(i);
    assert forall|a: int, b: int| 0 <= a < b < w2.len() implies !((#[trigger] w2[a]).0 == (#[trigger] w2[b]).0 && w2[a].1 == w2[b].1) by {
        let a0 = if a < i { a } else { a + 1 };
        let b0 = if b < i { b } else { b + 1 };
        assert(w2[a] == w[a0]);
        assert(w2[b] == w[b0]);
    }
}

/// What storing skipped keys up to `until` does (`ok` tells whether it
/// succeeded): nothing when more than `MAX_SKIP` keys would be skipped or
/// there is no receiving chain; without a peer key, the chain advances one
/// step and the step fails; otherwise the chain advances to `until`, storing
/// the key of each message passed.
pub open spec fn skip_rel(old: StateDHRatchet, until: u64, new: StateDHRatchet, ok: bool) -> bool {
    if old.nr + MAX_SKIP < until {
        !ok && new == old
    } else {
        match old.ckr {
            None => !ok && new == old,
            Some(ck) => if old.nr >= until {
                ok && new == old
            } else {
                match old.dhr {
                    None => {
                        &&& !ok
                        &&& new == (StateDHRatchet { ckr: new.ckr, ..old })
                        &&& new.ckr matches Some(c)
                        &&& c.0@ == spec_kdf_ck_chain(ck.0@)
                    },
                    Some(pk) => {
                        &&& ok
                        &&& new == (StateDHRatchet { ckr: new.ckr, nr: until, mk_skipped: new.mk_skipped, ..old })
                        &&& new.ckr matches Some(c)
                        &&& c.0@ == ck_iter(ck.0@, (until - old.nr) as nat)
                        &&& skipped_view(new.mk_skipped@) == spec_skip_store(
                            skipped_view(old.mk_skipped@), pk.0@, ck.0@, old.nr as nat, until as nat)
                    },
                }
            },
        }
    }
}

/// What a Diffie-Hellman ratchet step on a header does (`ok` tells whether
/// it succeeded): the counters restart, the header's key becomes the peer
/// key, a root step over DH(own key, peer key) gives the receiving chain, a
/// fresh own key pair is drawn, and a second root step over DH(new key,
/// peer key) gives the sending chain. A DH that cannot be computed stops
/// the step there.
pub open spec fn dh_ratchet_rel(old: StateDHRatchet, header: ECHeader, new: StateDHRatchet, ok: bool) -> bool {
    let s0 = StateDHRatchet { pn: old.ns, ns: 0, nr: 0, dhr: Some(header.dh_pub), ..old };
    match spec_x25519_derive(header.dh_pub.0@, old.dhs.private_key.0@) {
        None => !ok && new == s0,
        Some(d1) => {
            let rk1 = spec_kdf_rk_root(old.rk.0@, d1);
            &&& new == (StateDHRatchet { dhs: new.dhs, rk: new.rk, ckr: new.ckr, cks: new.cks, ..s0 })
            &&& new.ckr matches Some(c)
            &&& c.0@ == spec_kdf_rk_chain(old.rk.0@, d1)
            &&& new.dhs.public_key.0@ == spec_x25519_public(new.dhs.private_key.0@)
            &&& match spec_x25519_derive(header.dh_pub.0@, new.dhs.private_key.0@) {
                None => !ok && new.rk.0@ == rk1 && new.cks == old.cks,
                Some(d2) => {
                    &&& ok
                    &&& new.rk.0@ == spec_kdf_rk_root(rk1, d2)
                    &&& new.cks matches Some(c2)
                    &&& c2.0@ == spec_kdf_rk_chain(rk1, d2)
                },
            }
        },
    }
}

/// Whether a header calls for a Diffie-Hellman ratchet step.
pub open spec fn needs_dh_step(s: StateDHRatchet, header: ECHeader) -> bool {
    match s.dhr {
        Some(d) => d.0@ != header.dh_pub.0@,
        None => true,
    }
}

/// The last step of receiving: the message key of the receiving chain,
/// which advances by one; fails without a receiving chain or when the
/// counter is exhausted.
pub open spec fn receive_last_step<'a>(s3: StateDHRatchet, new: StateDHRatchet, res: Result<MessageKey, &'a str>) -> bool {
    match s3.ckr {
        None => res is Err && new == s3,
        Some(c) => {
            &&& new == (StateDHRatchet { ckr: new.ckr, nr: new.nr, ..s3 })
            &&& new.ckr matches Some(c2)
            &&& c2.0@ == spec_kdf_ck_chain(c.0@)
            &&& if s3.nr < u64::MAX {
                res matches Ok(mk) && mk.0@ == spec_kdf_ck_message(c.0@) && new.nr == s3.nr + 1
            } else {
                res is Err && new.nr == s3.nr
            }
        },
    }
}

/// What receiving the key of a message with `header` does.
pub open spec fn receive_key_rel<'a>(old: StateDHRatchet, header: ECHeader, new: StateDHRatchet, res: Result<MessageKey, &'a str>) -> bool {
    if has_skipped(skipped_view(old.mk_skipped@), header.dh_pub.0@, header.n) {
        exists|i: int| 0 <= i < old.mk_skipped@.len() && (#[trigger] skipped_view(old.mk_skipped@)[i]).0 == header.dh_pub.0@
            && skipped_view(old.mk_skipped@)[i].1 == header.n && res == Ok::<MessageKey, &'a str>(old.mk_skipped@[i].1)
            && new == (StateDHRatchet { mk_skipped: new.mk_skipped, ..old }) && new.mk_skipped@ == old.mk_skipped@.remove(i)
    } else if needs_dh_step(old, header) {
        exists|s1: StateDHRatchet, ok1: bool, s2: StateDHRatchet, ok2: bool, s3: StateDHRatchet, ok3: bool|
            #![trigger skip_rel(old, header.pn, s1, ok1), dh_ratchet_rel(s1, header, s2, ok2), skip_rel(s2, header.n, s3, ok3)]
            skip_rel(old, header.pn, s1, ok1) && dh_ratchet_rel(s1, header, s2, ok2) && skip_rel(s2, header.n, s3, ok3)
                && receive_last_step(s3, new, res)
    } else {
        exists|s3: StateDHRatchet, ok3: bool| #[trigger] skip_rel(old, header.n, s3, ok3) && receive_last_step(s3, new, res)
    }
}

/// One step of the sending chain: the message key and the message's
/// number, the chain key advanced and the counter up by one. Fails without
/// a sending chain or when the counter is exhausted, changing nothing.
pub open spec fn send_key_post<'a>(old: StateDHRatchet, new: StateDHRatchet, res: Result<(MessageKey, u64), &'a str>) -> bool {
    if old.cks is Some && old.ns < u64::MAX {
        &&& res matches Ok((mk, n))
        &&& mk.0@ == spec_kdf_ck_message(old.cks.unwrap().0@)
        &&& n == old.ns
        &&& new == (StateDHRatchet { cks: new.cks, ns: (old.ns + 1) as u64, ..old })
        &&& new.cks matches Some(c)
        &&& c.0@ == spec_kdf_ck_chain(old.cks.unwrap().0@)
    } else {
        res is Err && new == old
    }
}

/// The sending chain's next message key and the number of the message.
pub fn ratchet_send_key<'a>(state: &mut StateDHRatchet) -> (res: Result<(MessageKey, u64), &'a str>)
    ensures
        send_key_post(*old(state), *final(state), res),
{
    let cks = match state.cks {
        Some(cks) => cks,
        None => return Err("Couldn't find the chain key sender"),
    };
    if state.ns == u64::MAX {
        return Err("The sending counter is exhausted");
    }
    let (message_key, new_chain_key) = match KdfChain::kdf_ck(Some(cks)) {
        Ok(tuple) => tuple,
        Err(_) => return Err("kdf_ck. should be able to make next chain key and message key"),
    };
    state.set_cks(Some(new_chain_key));
    let old_ns = state.ns;
    state.add_ns();
    Ok((message_key, old_ns))
}

/// Double ratchet encryption: the next sending key, a header with the own
/// ratchet public key, and ChaCha20-Poly1305 over the plaintext with the
/// header and `ad` as associated data; returns (header, ciphertext, tag,
/// nonce).
pub fn ratchet_encrypt(ratchet_state: &mut StateDHRatchet, plaintext: &[u8], ad: &[u8; 64]) -> (res: (ECHeader, Vec<u8>, [u8; TAG_SIZE], [u8; NONCE_SIZE]))
    requires
        old(ratchet_state).cks is Some,
        old(ratchet_state).ns < u64::MAX,
        plaintext@.len() <= u32::MAX,
    ensures
        res.0 == (ECHeader { dh_pub: old(ratchet_state).dhs.public_key, pn: old(ratchet_state).pn, n: old(ratchet_state).ns }),
        spec_chacha20poly1305_encrypt(spec_kdf_ck_message(old(ratchet_state).cks.unwrap().0@), res.3@,
            spec_u32_be(64) + ad@ + ec_header_bytes(res.0), plaintext@) == (res.1@, res.2@),
        *final(ratchet_state) == (StateDHRatchet { cks: final(ratchet_state).cks, ns: (old(ratchet_state).ns + 1) as u64, ..*old(ratchet_state) }),
        final(ratchet_state).cks matches Some(c) && c.0@ == spec_kdf_ck_chain(old(ratchet_state).cks.unwrap().0@),
{
    let (message_key, ns) = match ratchet_send_key(ratchet_state) {
        Ok(p) => p,
        Err(_) => (MessageKey([0u8; 32]), 0),
    };
    let header = match ECHeader::header(Some(ratchet_state.dhs), ratchet_state.pn, ns) {
        Ok(h) => h,
        Err(_) => ECHeader { dh_pub: ratchet_state.dhs.public_key, pn: ratchet_state.pn, n: ns },
    };
    let concatination: [u8; 116] = header.concat_with_ad(ad);
    let (ct, tag, nonce) = match libcrux_aead_encrypts_ad(&message_key.0, &concatination, plaintext) {
        Ok(t) => t,
        Err(_) => (Vec::new(), [0u8; 16], [0u8; 12]),
    };
    (header, ct, tag, nonce)
}

/// The index of the skipped key for (`pk`, `n`), if there is one.
fn find_skipped(v: &Vec<SkippedKey>, pk: &X25519PublicKey, n: u64) -> (res: Option<usize>)
    ensures
        match res {
            Some(i) => i < v@.len() && skipped_view(v@)[i as int].0 == pk.0@ && skipped_view(v@)[i as int].1 == n,
            None => !has_skipped(skipped_view(v@), pk.0@, n),
        },
{
    let mut i: usize = 0;
    while i < v.len()
        invariant
            i <= v@.len(),
            forall|j: int| 0 <= j < i ==> !((#[trigger] skipped_view(v@)[j]).0 == pk.0@ && skipped_view(v@)[j].1 == n),
        decreases v@.len() - i,
    {
        if v[i].0.1 == n && bytes_equal(&v[i].0.0.0, &pk.0) {
            return Some(i);
        }
        i = i + 1;
    }
    None
}

/// Takes the stored key of the header's message, if it was skipped.
pub fn try_skipped_message_keys(state: &mut StateDHRatchet, header: &ECHeader) -> (res: Option<MessageKey>)
    requires
        old(state).wf(),
    ensures
        final(state).wf(),
        match res {
            Some(mk) => exists|i: int| 0 <= i < old(state).mk_skipped@.len()
                && (#[trigger] skipped_view(old(state).mk_skipped@)[i]).0 == header.dh_pub.0@
                && skipped_view(old(state).mk_skipped@)[i].1 == header.n && mk == old(state).mk_skipped@[i].1
                && *final(state) == (StateDHRatchet { mk_skipped: final(state).mk_skipped, ..*old(state) })
                && final(state).mk_skipped@ == old(state).mk_skipped@.remove(i),
            None => !has_skipped(skipped_view(old(state).mk_skipped@), header.dh_pub.0@, header.n)
                && *final(state) == *old(state),
        },
{
    match find_skipped(&state.mk_skipped, &header.dh_pub, header.n) {
        Some(i) => {
            proof {
                lemma_skipped_remove(state.mk_skipped@, i as int);
            }
            let e = state.mk_skipped.remove(i);
            assert(skipped_view(old(state).mk_skipped@)[i as int].0 == header.dh_pub.0@);
            Some(e.1)
        },
        None => None,
    }
}

/// Stores the keys of the messages of the receiving chain up to `until`
/// (exclusive) as skipped, advancing the chain. Fails when more than
/// `MAX_SKIP` keys would be skipped or there is no receiving chain or peer key.
pub fn skip_message_keys<'a>(state: &mut StateDHRatchet, until: &u64) -> (res: Result<(), &'a str>)
    requires
        old(state).wf(),
    ensures
        final(state).wf(),
        skip_rel(*old(state), *until, *final(state), res is Ok),
{
    let until_val: u64 = *until;
    if until_val > MAX_SKIP && state.nr < until_val - MAX_SKIP {
        return Err("Too many messages lost");
    }
    if state.ckr.is_none() {
        return Err("The receiving chain key is None");
    }
    if state.nr >= until_val {
        return Ok(());
    }
    if state.dhr.is_none() {
        // The chain takes its first step before the missing peer key shows.
        let (_mk, state_ckr) = match KdfChain::kdf_ck(state.ckr) {
            Ok((mk, sckr)) => (mk, sckr),
            Err(_) => return Err("Couldn't find the ckr in the map"),
        };
        state.ckr = Some(state_ckr);
        return Err("Could not find the public key for the chain key");
    }
    let mut state_nr = state.nr;
    let ghost ck0 = state.ckr.unwrap().0@;
    let ghost pk0 = state.dhr.unwrap().0@;
    let state_dhr = match state.dhr {
        Some(sdhr) => sdhr,
        None => return Err("Could not find the public key for the chain key"),
    };
    assert(ck_iter(ck0, 0) == ck0);
    while state_nr < until_val
        invariant
            old(state).nr <= state_nr <= until_val,
            old(state).ckr matches Some(c0) && c0.0@ == ck0,
            old(state).dhr == Some(state_dhr),
            state_dhr.0@ == pk0,
            *state == (StateDHRatchet { ckr: state.ckr, mk_skipped: state.mk_skipped, ..*old(state) }),
            state.ckr matches Some(c) && c.0@ == ck_iter(ck0, (state_nr - old(state).nr) as nat),
            spec_skip_store(skipped_view(state.mk_skipped@), pk0, state.ckr.unwrap().0@,
                state_nr as nat, until_val as nat) == spec_skip_store(
                skipped_view(old(state).mk_skipped@), pk0, ck0, old(state).nr as nat, until_val as nat),
            skipped_unique(skipped_view(state.mk_skipped@)),
        decreases until_val - state_nr,
    {
        let ghost ck_before = state.ckr.unwrap().0@;
        let ghost view_before = skipped_view(state.mk_skipped@);
        let ghost k: nat = (state_nr - old(state).nr) as nat;
        let (mk, state_ckr) = match KdfChain::kdf_ck(state.ckr) {
            Ok((mk, sckr)) => (mk, sckr),
            Err(_) => return Err("Couldn't find the ckr in the map"),
        };
        state.ckr = Some(state_ckr);
        match find_skipped(&state.mk_skipped, &state_dhr, state_nr) {
            Some(_) => {},
            None => {
                state.mk_skipped.push(((state_dhr, state_nr), mk));
                proof {
                    assert(skipped_view(state.mk_skipped@) =~= view_before.push((pk0, state_nr, mk.0@)));
                }
            },
        }
        proof {
            lemma_skip_store_unique(view_before, pk0, ck_before, state_nr as nat, (state_nr + 1) as nat);
            let v2 = if has_skipped(view_before, pk0, state_nr) { view_before } else {
                view_before.push((pk0, state_nr, spec_kdf_ck_message(ck_before)))
            };
            assert(spec_skip_store(v2, pk0, spec_kdf_ck_chain(ck_before), (state_nr + 1) as nat, (state_nr + 1) as nat) == v2);
            assert(skipped_view(state.mk_skipped@) == v2);
            assert(ck_iter(ck0, k + 1) == spec_kdf_ck_chain(ck_iter(ck0, k)));
            assert((state_nr + 1 - old(state).nr) as nat == k + 1);
        }
        state_nr = state_nr + 1;
    }
    state.nr = state_nr;
    proof {
        assert(spec_skip_store(skipped_view(state.mk_skipped@), pk0, state.ckr.unwrap().0@, state_nr as nat, until_val as nat)
            == skipped_view(state.mk_skipped@));
    }
    Ok(())
}

/// A Diffie-Hellman ratchet step on a received header.
pub fn dh_ratchet<'a>(state: &mut StateDHRatchet, header: &ECHeader) -> (res: Result<(), &'a str>)
    requires
        old(state).wf(),
    ensures
        final(state).wf(),
        dh_ratchet_rel(*old(state), *header, *final(state), res is Ok),
{
    state.pn = state.ns;
    state.ns = 0;
    state.nr = 0;
    state.dhr = Some(header.dh_pub);
    let state_dhr = header.dh_pub;
    let dh_out = match state.make_dh_out(state_dhr) {
        Ok(d) => d,
        Err(e) => return Err(e),
    };
    let (new_rk, new_ckr) = KdfChain::kdf_rk(*state.get_rk(), dh_out);
    state.rk = new_rk;
    state.ckr = Some(new_ckr);
    state.dhs = gen_curve_key_pair();
    let dh_out = match state.make_dh_out(state_dhr) {
        Ok(d) => d,
        Err(e) => return Err(e),
    };
    let (newest_rk, new_cks) = KdfChain::kdf_rk(*state.get_rk(), dh_out);
    state.rk = newest_rk;
    state.cks = Some(new_cks);
    Ok(())
}

/// The key of a received message: a stored skipped key if there is one;
/// otherwise, for a new peer key, the keys of the rest of the current
/// receiving chain are stored and a Diffie-Hellman step is taken, then the
/// keys up to the message's number are stored and the chain's next key is
/// returned. Fails where no receiving chain can be had.
pub fn ratchet_receive_key<'a>(state: &mut StateDHRatchet, header: &ECHeader) -> (res: Result<MessageKey, &'a str>)
    requires
        old(state).wf(),
    ensures
        final(state).wf(),
        receive_key_rel(*old(state), *header, *final(state), res),
{
    let ghost s0 = *state;
    let mk = try_skipped_message_keys(state, header);
    match mk {
        Some(mk) => return Ok(mk),
        None => {},
    }
    let needs_dh = match state.dhr {
        Some(dhr) => !bytes_equal(&header.dh_pub.0, &dhr.0),
        None => true,
    };
    let ghost mut s1 = *state;
    let ghost mut ok1 = true;
    let ghost mut ok2 = true;
    if needs_dh {
        let r1 = skip_message_keys(state, &header.pn);
        proof {
            s1 = *state;
            ok1 = r1 is Ok;
        }
        let r2 = dh_ratchet(state, header);
        proof {
            ok2 = r2 is Ok;
        }
    }
    let ghost s2 = *state;
    let r3 = skip_message_keys(state, &header.n);
    let ghost s3 = *state;
    let ghost ok3 = r3 is Ok;
    let (mk, ck) = match KdfChain::kdf_ck(state.ckr) {
        Ok(p) => p,
        Err(_) => {
            assert(receive_last_step(s3, *state, Err::<MessageKey, &'a str>("Could not make the new message key and chain key")));
            return Err("Could not make the new message key and chain key");
        },
    };
    state.ckr = Some(ck);
    if state.nr == u64::MAX {
        assert(receive_last_step(s3, *state, Err::<MessageKey, &'a str>("The receiving counter is exhausted")));
        return Err("The receiving counter is exhausted");
    }
    state.nr = state.nr + 1;
    let res: Result<MessageKey, &'a str> = Ok(mk);
    proof {
        assert(receive_last_step(s3, *state, res));
        if needs_dh {
            assert(skip_rel(s0, header.pn, s1, ok1) && dh_ratchet_rel(s1, *header, s2, ok2) && skip_rel(s2, header.n, s3, ok3));
        } else {
            assert(skip_rel(s0, header.n, s3, ok3));
        }
    }
    res
}

/// Double ratchet decryption of a message with `header`.
pub fn ratchet_decrypt<'a>(state: &mut StateDHRatchet, header: &ECHeader, ciphertext: &[u8], ad: &[u8; 64], tag: [u8; TAG_SIZE], nonce: [u8; NONCE_SIZE]) -> (res: Result<Vec<u8>, &'a str>)
    requires
        old(state).wf(),
    ensures
        final(state).wf(),
        exists|mk_res: Result<MessageKey, &'a str>| #[trigger] receive_key_rel(*old(state), *header, *final(state), mk_res)
            && match mk_res {
                Err(_) => res is Err,
                Ok(mk) => match res {
                    Ok(pt) => spec_chacha20poly1305_decrypt(mk.0@, nonce@, spec_u32_be(64) + ad@ + ec_header_bytes(*header),
                        ciphertext@, tag@) == Some(pt@),
                    Err(_) => spec_chacha20poly1305_decrypt(mk.0@, nonce@, spec_u32_be(64) + ad@ + ec_header_bytes(*header),
                        ciphertext@, tag@) is None,
                },
            },
{
    let mk_res = ratchet_receive_key(state, header);
    let mk = match mk_res {
        Ok(mk) => mk,
        Err(e) => return Err(e),
    };
    let concat = header.concat_with_ad(ad);
    match libcrux_aead_decrypts_ad(&mk.0, &concat, ciphertext, &tag, &nonce) {
        Ok(plt) => Ok(plt),
        Err(e) => Err(e),
    }
}


/// The Diffie-Hellman ratchet starts in step: when the responder, keyed by
/// the initiator's root key and holding the signed prekey pair that the
/// initiator ratcheted towards, takes the ratchet step on the initiator's
/// first header, its receiving chain is the initiator's sending chain,
/// where X25519 agrees on the two key pairs.
pub proof fn law_first_chains_agree(
    initiator: StateDHRatchet,
    sk: Seq<u8>,
    responder: StateDHRatchet,
    header: ECHeader,
    next: StateDHRatchet,
    ok: bool,
)
    requires
        initiator.dhr == Some(responder.dhs.public_key),
        spec_x25519_derive(responder.dhs.public_key.0@, initiator.dhs.private_key.0@) matches Some(dh)
            && initiator.cks matches Some(c) && c.0@ == spec_kdf_rk_chain(sk, dh),
        responder.rk.0@ == sk,
        header.dh_pub == initiator.dhs.public_key,
        spec_x25519_derive(initiator.dhs.public_key.0@, responder.dhs.private_key.0@)
            == spec_x25519_derive(responder.dhs.public_key.0@, initiator.dhs.private_key.0@),
        dh_ratchet_rel(responder, header, next, ok),
    ensures
        next.ckr matches Some(c) && c.0@ == initiator.cks.unwrap().0@,
{
}


/// A receiver is in step with a sender's chain: its receiving chain is the
/// sender's sending chain at the same count, its peer key is the sender's
/// ratchet key, and it stores no skipped key of that chain from the count on.
pub open spec fn in_step(sender: StateDHRatchet, receiver: StateDHRatchet) -> bool {
    &&& sender.cks matches Some(c) && receiver.ckr matches Some(d) && c.0@ == d.0@
    &&& receiver.nr == sender.ns
    &&& receiver.dhr matches Some(k) && k.0@ == sender.dhs.public_key.0@
    &&& forall|i: int| 0 <= i < receiver.mk_skipped@.len()
        && (#[trigger] skipped_view(receiver.mk_skipped@)[i]).0 == sender.dhs.public_key.0@
        ==> skipped_view(receiver.mk_skipped@)[i].1 < receiver.nr
}

/// Messages on one chain arrive in order: when the receiver is in step with
/// the sender, the key of the sender's next message is the key the receiver
/// gets for its header, and both move on in step.
pub proof fn law_in_chain_delivery<'a>(
    sender: StateDHRatchet,
    sender2: StateDHRatchet,
    sres: Result<(MessageKey, u64), &'a str>,
    receiver: StateDHRatchet,
    receiver2: StateDHRatchet,
    rres: Result<MessageKey, &'a str>,
)
    requires
        in_step(sender, receiver),
        send_key_post(sender, sender2, sres),
        sres matches Ok((_mk, n)) ==> receive_key_rel(receiver,
            ECHeader { dh_pub: sender.dhs.public_key, pn: sender.pn, n }, receiver2, rres),
    ensures
        sres is Ok <==> sender.ns < u64::MAX,
        sres matches Ok((mk, _n)) ==> {
            &&& rres matches Ok(mk2)
            &&& mk2.0@ == mk.0@
            &&& in_step(sender2, receiver2)
        },
{
    if let Ok((mk, n)) = sres {
        let header = ECHeader { dh_pub: sender.dhs.public_key, pn: sender.pn, n };
        assert(!has_skipped(skipped_view(receiver.mk_skipped@), header.dh_pub.0@, header.n));
        assert(!needs_dh_step(receiver, header));
        let (s3, ok3) = choose|s3: StateDHRatchet, ok3: bool| #[trigger] skip_rel(receiver, header.n, s3, ok3)
            && receive_last_step(s3, receiver2, rres);
        assert(s3 == receiver);
        assert(skipped_view(receiver2.mk_skipped@) == skipped_view(receiver.mk_skipped@));
    }
}


/// The receiver awaits the sender's new chain: the sender ratcheted towards
/// the receiver's key pair from the receiver's root key, has sent nothing on
/// the new chain yet, and the receiver has neither the sender's key as its
/// peer key nor keys stored under it; both key pairs are X25519 pairs.
pub open spec fn awaits_dh(sender: StateDHRatchet, receiver: StateDHRatchet) -> bool {
    &&& sender.dhr == Some(receiver.dhs.public_key)
    &&& needs_dh_step(receiver, ECHeader { dh_pub: sender.dhs.public_key, pn: sender.pn, n: sender.ns })
    &&& crate::pqxdh::pqxdh_impl::curve_pair_ok(sender.dhs)
    &&& crate::pqxdh::pqxdh_impl::curve_pair_ok(receiver.dhs)
    &&& spec_x25519_derive(receiver.dhs.public_key.0@, sender.dhs.private_key.0@) matches Some(dh)
    &&& sender.cks matches Some(c) && c.0@ == spec_kdf_rk_chain(receiver.rk.0@, dh)
    &&& sender.rk.0@ == spec_kdf_rk_root(receiver.rk.0@, dh)
    &&& sender.ns == 0
    &&& forall|i: int| 0 <= i < receiver.mk_skipped@.len()
        ==> (#[trigger] skipped_view(receiver.mk_skipped@)[i]).0 != sender.dhs.public_key.0@
}

/// A reply opens a new chain: when the receiver awaits the sender's new
/// chain, the first message on it is received, after the receiver's
/// Diffie-Hellman ratchet step, under the key it was sent under; the two
/// are then in step on that chain, and where the receiver's new key pair
/// is new to both and its X25519 output with the sender's key exists, the
/// sender awaits the receiver's new chain in turn. X25519 is taken to agree.
pub proof fn law_dh_step_delivery<'a>(
    sender: StateDHRatchet,
    sender2: StateDHRatchet,
    sres: Result<(MessageKey, u64), &'a str>,
    receiver: StateDHRatchet,
    receiver2: StateDHRatchet,
    rres: Result<MessageKey, &'a str>,
)
    requires
        awaits_dh(sender, receiver),
        crate::pqxdh::pqxdh_impl::x25519_agrees(),
        send_key_post(sender, sender2, sres),
        sres matches Ok((_mk, n)) ==> receive_key_rel(receiver,
            ECHeader { dh_pub: sender.dhs.public_key, pn: sender.pn, n }, receiver2, rres),
    ensures
        sres matches Ok((mk, _n)) && rres matches Ok(mk2) && mk2.0@ == mk.0@,
        in_step(sender2, receiver2),
        receiver2.dhs.public_key.0@ != receiver.dhs.public_key.0@
            && spec_x25519_derive(sender.dhs.public_key.0@, receiver2.dhs.private_key.0@) is Some
            && (forall|i: int| 0 <= i < sender2.mk_skipped@.len()
                ==> (#[trigger] skipped_view(sender2.mk_skipped@)[i]).0 != receiver2.dhs.public_key.0@)
            ==> awaits_dh(receiver2, sender2),
{
    let (mk, n) = sres.unwrap();
    let header = ECHeader { dh_pub: sender.dhs.public_key, pn: sender.pn, n };
    assert(n == 0);
    assert(!has_skipped(skipped_view(receiver.mk_skipped@), header.dh_pub.0@, header.n));
    let (s1, ok1, s2, ok2, s3, ok3) = choose|s1: StateDHRatchet, ok1: bool, s2: StateDHRatchet, ok2: bool, s3: StateDHRatchet, ok3: bool|
        #![trigger skip_rel(receiver, header.pn, s1, ok1), dh_ratchet_rel(s1, header, s2, ok2), skip_rel(s2, header.n, s3, ok3)]
        skip_rel(receiver, header.pn, s1, ok1) && dh_ratchet_rel(s1, header, s2, ok2) && skip_rel(s2, header.n, s3, ok3)
            && receive_last_step(s3, receiver2, rres);
    // skipping on the old chain keeps the root key and key pair, and stores
    // nothing under the sender's key
    assert(s1.rk == receiver.rk && s1.dhs == receiver.dhs);
    assert forall|i: int| 0 <= i < s1.mk_skipped@.len()
        implies (#[trigger] skipped_view(s1.mk_skipped@)[i]).0 != sender.dhs.public_key.0@ by {
        let v = skipped_view(receiver.mk_skipped@);
        if skipped_view(s1.mk_skipped@) != v {
            let pk = receiver.dhr.unwrap().0@;
            let ck = receiver.ckr.unwrap().0@;
            lemma_skip_store_appends(v, pk, ck, receiver.nr as nat, header.pn as nat);
            let r = spec_skip_store(v, pk, ck, receiver.nr as nat, header.pn as nat);
            if i < v.len() {
                assert(r[i] == r.take(v.len() as int)[i]);
            }
        }
    }
    let a = sender.dhs.private_key.0@;
    let b = receiver.dhs.private_key.0@;
    assert(spec_x25519_derive(spec_x25519_public(a), b) == spec_x25519_derive(spec_x25519_public(b), a));
    assert(s3 == s2);
    let r2 = receiver2.dhs.private_key.0@;
    assert(spec_x25519_derive(spec_x25519_public(a), r2) == spec_x25519_derive(spec_x25519_public(r2), a));
}


/// Waiting for the peer's new chain outlasts the messages in between: while
/// `y` awaits `x`'s new chain, `y` sending more on its own chain and `x`
/// receiving those messages in step keep `y` awaiting it, and `x` in step.
pub proof fn law_awaiting_kept<'a>(
    x: StateDHRatchet,
    y: StateDHRatchet,
    y2: StateDHRatchet,
    yres: Result<(MessageKey, u64), &'a str>,
    x2: StateDHRatchet,
    xres: Result<MessageKey, &'a str>,
)
    requires
        awaits_dh(x, y),
        in_step(y, x),
        send_key_post(y, y2, yres),
        yres matches Ok((_mk, n)) ==> receive_key_rel(x, ECHeader { dh_pub: y.dhs.public_key, pn: y.pn, n }, x2, xres),
    ensures
        awaits_dh(x, y2),
        yres is Ok ==> awaits_dh(x2, y2) && in_step(y2, x2),
{
    law_in_chain_delivery(y, y2, yres, x, x2, xres);
    if let Ok((mk, n)) = yres {
        let header = ECHeader { dh_pub: y.dhs.public_key, pn: y.pn, n };
        let (s3, ok3) = choose|s3: StateDHRatchet, ok3: bool| #[trigger] skip_rel(x, header.n, s3, ok3)
            && receive_last_step(s3, x2, xres);
        assert(s3 == x);
    }
}


/// A sender's messages on one chain go out under the chain's keys in turn:
/// the `k`-th of successive sends from `ss[0]` is message number
/// `ss[0].ns + k` under the key of the chain stepped `k` times.
pub proof fn law_sent_keys_follow_chain<'a>(ss: Seq<StateDHRatchet>, rs: Seq<Result<(MessageKey, u64), &'a str>>)
    requires
        ss.len() == rs.len() + 1,
        ss[0].cks is Some,
        forall|k: int| 0 <= k < rs.len() ==> send_key_post(ss[k], ss[k + 1], #[trigger] rs[k]) && rs[k] is Ok,
    ensures
        forall|k: int| 0 <= k < rs.len() ==> (#[trigger] rs[k] matches Ok((mk, n))
            && n == ss[0].ns + k && mk.0@ == spec_kdf_ck_message(ck_iter(ss[0].cks.unwrap().0@, k as nat))),
    decreases rs.len(),
{
    if rs.len() > 0 {
        let ss2 = ss.drop_last();
        let rs2 = rs.drop_last();
        assert forall|k: int| 0 <= k < rs2.len() implies send_key_post(ss2[k], ss2[k + 1], #[trigger] rs2[k]) && rs2[k] is Ok by {
            assert(rs2[k] == rs[k]);
            assert(ss2[k] == ss[k] && ss2[k + 1] == ss[k + 1]);
        }
        law_sent_keys_follow_chain(ss2, rs2);
        let last = rs.len() - 1;
        assert(send_key_post(ss[last], ss[last + 1], rs[last]));
        // the chain before the last send has been stepped `last` times
        assert forall|k: int| 0 <= k <= last implies (#[trigger] ss[k]).cks matches Some(c)
            && c.0@ == ck_iter(ss[0].cks.unwrap().0@, k as nat) && ss[k].ns == ss[0].ns + k by {
            lemma_chain_steps(ss, rs, k);
        }
        assert forall|k: int| 0 <= k < rs.len() implies (#[trigger] rs[k] matches Ok((mk, n))
            && n == ss[0].ns + k && mk.0@ == spec_kdf_ck_message(ck_iter(ss[0].cks.unwrap().0@, k as nat))) by {
            if k < last {
                assert(rs2[k] == rs[k]);
            } else {
                lemma_chain_steps(ss, rs, k);
            }
        }
    }
}

/// After `k` successive sends the chain has been stepped `k` times.
proof fn lemma_chain_steps<'a>(ss: Seq<StateDHRatchet>, rs: Seq<Result<(MessageKey, u64), &'a str>>, k: int)
    requires
        ss.len() == rs.len() + 1,
        ss[0].cks is Some,
        forall|j: int| 0 <= j < rs.len() ==> send_key_post(ss[j], ss[j + 1], #[trigger] rs[j]) && rs[j] is Ok,
        0 <= k < ss.len(),
    ensures
        ss[k].cks matches Some(c) && c.0@ == ck_iter(ss[0].cks.unwrap().0@, k as nat),
        ss[k].ns == ss[0].ns + k,
    decreases k,
{
    if k > 0 {
        lemma_chain_steps(ss, rs, k - 1);
        let r = rs[k - 1];
        assert(send_key_post(ss[k - 1], ss[(k - 1) + 1], r));
        assert(ck_iter(ss[0].cks.unwrap().0@, k as nat) == spec_kdf_ck_chain(ck_iter(ss[0].cks.unwrap().0@, (k - 1) as nat)));
    }
}

/// A late message opens with the key it was sent under: when the receiver
/// is in step with the sender at message `s.ns`, receiving message `n` of
/// the chain first (skipping at most `MAX_SKIP`) gives the key of message
/// `n`, and receiving an earlier message `i` (from `s.ns` on) afterwards
/// gives the key of message `i`, stored on the way.
pub proof fn law_late_message_delivered<'a>(
    s: StateDHRatchet,
    r: StateDHRatchet,
    n: u64,
    i: u64,
    r2: StateDHRatchet,
    res_n: Result<MessageKey, &'a str>,
    r3: StateDHRatchet,
    res_i: Result<MessageKey, &'a str>,
)
    requires
        in_step(s, r),
        r.wf(),
        s.ns <= i < n < u64::MAX,
        n <= s.ns + MAX_SKIP,
        receive_key_rel(r, ECHeader { dh_pub: s.dhs.public_key, pn: s.pn, n }, r2, res_n),
        receive_key_rel(r2, ECHeader { dh_pub: s.dhs.public_key, pn: s.pn, n: i }, r3, res_i),
    ensures
        res_n matches Ok(k) && k.0@ == spec_kdf_ck_message(ck_iter(s.cks.unwrap().0@, (n - s.ns) as nat)),
        res_i matches Ok(k) && k.0@ == spec_kdf_ck_message(ck_iter(s.cks.unwrap().0@, (i - s.ns) as nat)),
{
    let hn = ECHeader { dh_pub: s.dhs.public_key, pn: s.pn, n };
    let hi = ECHeader { dh_pub: s.dhs.public_key, pn: s.pn, n: i };
    let pk = s.dhs.public_key.0@;
    let c = s.cks.unwrap().0@;
    let v = skipped_view(r.mk_skipped@);
    assert(!has_skipped(v, pk, n));
    assert(!needs_dh_step(r, hn));
    let (s3, ok3) = choose|s3: StateDHRatchet, ok3: bool| #[trigger] skip_rel(r, hn.n, s3, ok3)
        && receive_last_step(s3, r2, res_n);
    assert(r.dhr.unwrap().0@ == pk);
    let stored = spec_skip_store(v, pk, c, r.nr as nat, n as nat);
    assert(skipped_view(s3.mk_skipped@) == stored);
    assert(skipped_view(r2.mk_skipped@) == stored);
    assert forall|j: int| 0 <= j < v.len() && (#[trigger] v[j]).0 == pk implies v[j].1 < r.nr by {
        assert(skipped_view(r.mk_skipped@)[j] == v[j]);
    }
    lemma_skip_store_has(v, pk, c, r.nr as nat, n as nat, i as nat);
    lemma_skip_store_unique(v, pk, c, r.nr as nat, n as nat);
    let idx = choose|idx: int| 0 <= idx < stored.len()
        && #[trigger] stored[idx] == (pk, i, spec_kdf_ck_message(ck_iter(c, (i - r.nr) as nat)));
    assert(has_skipped(skipped_view(r2.mk_skipped@), hi.dh_pub.0@, hi.n));
    let j = choose|j: int| 0 <= j < r2.mk_skipped@.len() && (#[trigger] skipped_view(r2.mk_skipped@)[j]).0 == hi.dh_pub.0@
        && skipped_view(r2.mk_skipped@)[j].1 == hi.n && res_i == Ok::<MessageKey, &'a str>(r2.mk_skipped@[j].1)
        && r3 == (StateDHRatchet { mk_skipped: r3.mk_skipped, ..r2 }) && r3.mk_skipped@ == r2.mk_skipped@.remove(j);
    if j != idx {
        assert(stored[j].0 == stored[idx].0 && stored[j].1 == stored[idx].1);
        if j < idx {
            assert(!(stored[j].0 == stored[idx].0 && stored[j].1 == stored[idx].1));
        } else {
            assert(!(stored[idx].0 == stored[j].0 && stored[idx].1 == stored[j].1));
        }
    }
    assert(skipped_view(r2.mk_skipped@)[j] == stored[idx]);
}


/// The responder's first receive: fresh from its initial state with the
/// initiator's root key and the prekey pair the initiator ratcheted
/// towards, it gets on the initiator's first header the message key the
/// initiator's sending chain gives, where X25519 agrees on the two key pairs.
pub proof fn lemma_first_key_received<'a>(
    initiator: StateDHRatchet,
    sk: Seq<u8>,
    responder: StateDHRatchet,
    header: ECHeader,
    next: StateDHRatchet,
    mk_res: Result<MessageKey, &'a str>,
)
    requires
        initiator.dhr == Some(responder.dhs.public_key),
        spec_x25519_derive(responder.dhs.public_key.0@, initiator.dhs.private_key.0@) matches Some(dh)
            && initiator.cks matches Some(c) && c.0@ == spec_kdf_rk_chain(sk, dh),
        responder.rk.0@ == sk,
        responder.dhr is None,
        responder.ckr is None,
        responder.nr == 0,
        responder.mk_skipped@.len() == 0,
        header.dh_pub == initiator.dhs.public_key,
        header.pn == 0,
        header.n == 0,
        spec_x25519_derive(initiator.dhs.public_key.0@, responder.dhs.private_key.0@)
            == spec_x25519_derive(responder.dhs.public_key.0@, initiator.dhs.private_key.0@),
        receive_key_rel(responder, header, next, mk_res),
    ensures
        mk_res matches Ok(mk) && mk.0@ == spec_kdf_ck_message(initiator.cks.unwrap().0@),
{
    assert(!has_skipped(skipped_view(responder.mk_skipped@), header.dh_pub.0@, header.n));
    assert(needs_dh_step(responder, header));
    let (s1, ok1, s2, ok2, s3, ok3) = choose|s1: StateDHRatchet, ok1: bool, s2: StateDHRatchet, ok2: bool, s3: StateDHRatchet, ok3: bool|
        #![trigger skip_rel(responder, header.pn, s1, ok1), dh_ratchet_rel(s1, header, s2, ok2), skip_rel(s2, header.n, s3, ok3)]
        skip_rel(responder, header.pn, s1, ok1) && dh_ratchet_rel(s1, header, s2, ok2) && skip_rel(s2, header.n, s3, ok3)
            && receive_last_step(s3, next, mk_res);
    assert(s1 == responder);
    law_first_chains_agree(initiator, sk, responder, header, s2, ok2);
    assert(s3 == s2);
}


/// The first message arrives: the responder, fresh from its initial state
/// with the initiator's root key and the signed prekey pair the initiator
/// ratcheted towards, receives on the initiator's first header the message
/// key the initiator encrypted under, and the ciphertext opens to the
/// plaintext, where X25519 agrees on the two key pairs and
/// ChaCha20-Poly1305 ciphertexts open.
pub proof fn law_first_message_delivered<'a>(
    initiator: StateDHRatchet,
    sk: Seq<u8>,
    responder: StateDHRatchet,
    header: ECHeader,
    ad: Seq<u8>,
    nonce: Seq<u8>,
    pt: Seq<u8>,
    next: StateDHRatchet,
    mk_res: Result<MessageKey, &'a str>,
)
    requires
        initiator.dhr == Some(responder.dhs.public_key),
        spec_x25519_derive(responder.dhs.public_key.0@, initiator.dhs.private_key.0@) matches Some(dh)
            && initiator.cks matches Some(c) && c.0@ == spec_kdf_rk_chain(sk, dh),
        initiator.ns == 0,
        initiator.pn == 0,
        responder.rk.0@ == sk,
        responder.dhr is None,
        responder.ckr is None,
        responder.nr == 0,
        responder.mk_skipped@.len() == 0,
        header == (ECHeader { dh_pub: initiator.dhs.public_key, pn: initiator.pn, n: initiator.ns }),
        spec_x25519_derive(initiator.dhs.public_key.0@, responder.dhs.private_key.0@)
            == spec_x25519_derive(responder.dhs.public_key.0@, initiator.dhs.private_key.0@),
        receive_key_rel(responder, header, next, mk_res),
        crate::pqxdh::pqxdh_impl::aead_opens(),
    ensures
        mk_res matches Ok(mk) && mk.0@ == spec_kdf_ck_message(initiator.cks.unwrap().0@),
        ({
            let mk = spec_kdf_ck_message(initiator.cks.unwrap().0@);
            let aad = spec_u32_be(64) + ad + ec_header_bytes(header);
            let (ct, tag) = spec_chacha20poly1305_encrypt(mk, nonce, aad, pt);
            spec_chacha20poly1305_decrypt(mk, nonce, aad, ct, tag) == Some(pt)
        }),
{
    lemma_first_key_received(initiator, sk, responder, header, next, mk_res);
    let mk = spec_kdf_ck_message(initiator.cks.unwrap().0@);
    let aad = spec_u32_be(64) + ad + ec_header_bytes(header);
    let sealed = spec_chacha20poly1305_encrypt(mk, nonce, aad, pt);
    assert(spec_chacha20poly1305_decrypt(mk, nonce, aad, sealed.0, sealed.1) == Some(pt));
}

} // verus!
