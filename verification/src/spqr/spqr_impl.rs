use vstd::prelude::*;
use std::collections::HashMap;
use vstd::std_specs::iter::IteratorSpec;
use crate::kdf_chain::kdf_chain_impl::{KdfChain, TypChain, spec_kdf_scka_ck};
use crate::ml_kem_braid::ml_kem_braid_impl::{
    MlKemBraid, ReceiveResult, SendResult, braid_size, is_initiator_braid, is_responder_braid, receive_post, send_post,
};
use crate::double_ratchet::messages_ratchet::MAX_SKIP;
use crate::util::constants::SHARED_SECRET_SIZE;
use crate::util::helper_func::{spec_u32_be, spec_u64_be, u32_to_be_bytes, u64_to_be_bytes, append_bytes, zero_bytes};
use crate::util::keys::{MessageKey, RootChainKey, SCKAOutputKey};
use crate::util::libcrux_wrap::{scka_init_info, scka_rk_info, spec_hkdf_sha256};
use crate::util::messages::{Chunk, SCKAMessage, SCKAMessageHeader, SCKAMessageType};
use crate::ml_kem_braid::encoder::{lemma_chunks_shape, spec_chunks};
use crate::ml_kem_braid::ml_kem_braid_impl::{BraidState, hdr_mac, kp_header, post_send_keys_unsampled};
use crate::util::constants::{CHUNK_SIZE, DECAPSULATION_KEY_SIZE};
use crate::util::libcrux_wrap::spec_ml_kem_768_compressed_key_pair;
use crate::util::encrypt_decrypt::{decrypt, encrypt, spec_decrypt, spec_encrypt};
use crate::util::helper_func::copy_range;
use vstd::utf8::encode_utf8;
use vstd::string::StringSliceAdditionalSpecFns;

verus! {

broadcast use {vstd::std_specs::hash::group_hash_axioms, vstd::seq_lib::group_filter_ensures, vstd::seq_lib::group_seq_properties};

/// Who began the current epoch's exchange.
#[derive(Debug, Clone, Copy, PartialEq, Eq, Structural)]
pub enum Direction {
    /// This party is the initiator.
    A2B,
    /// This party is the responder.
    B2A,
}

/// The receiving and sending chains of one epoch.
#[derive(Debug, Copy, Clone)]
pub struct KdfChains {
    pub receiving: Option<KdfChain>,
    pub sending: Option<KdfChain>,
}

/// State of the sparse post-quantum ratchet: a root key, the chains of the
/// epochs still in use, the keys of skipped messages per epoch, and the
/// braid that agrees on each epoch's secret.
#[derive(Debug)]
pub struct SPQRState {
    pub rk: RootChainKey,
    pub epoch: u64,
    pub kdfchains: HashMap<u64, KdfChains>,
    pub mkskipped: HashMap<u64, Option<HashMap<u64, [u8; 32]>>>,
    pub direction: Direction,
    pub scka_state: MlKemBraid,
}

impl Clone for SPQRState {
    fn clone(&self) -> (res: Self)
        ensures
            res.rk == self.rk,
            res.epoch == self.epoch,
            res.kdfchains@ == self.kdfchains@,
            res.mkskipped@ == self.mkskipped@,
            res.direction == self.direction,
            res.scka_state.state.epoch() == self.scka_state.state.epoch(),
            crate::ml_kem_braid::ml_kem_braid_impl::braid_copy(res.scka_state.state, self.scka_state.state),
            self.wf() ==> res.wf(),
    {
        SPQRState {
            rk: self.rk,
            epoch: self.epoch,
            kdfchains: self.kdfchains.clone(),
            mkskipped: self.mkskipped.clone(),
            direction: self.direction,
            scka_state: self.scka_state.clone(),
        }
    }
}

/// A chain of role `typ` at key `key` that has taken `counter` steps.
pub open spec fn chain_is(c: Option<KdfChain>, typ: TypChain, key: Seq<u8>, counter: u64) -> bool {
    c matches Some(k) && k.typ_chain == typ && k.kdf_key@ == key && k.counter == counter
}

/// The 96 bytes of the initial derivation from the shared secret.
pub open spec fn init_okm(ss: Seq<u8>) -> Seq<u8> {
    spec_hkdf_sha256(96, zero_bytes(32), ss, scka_init_info())
}

/// The 96 bytes of a root step with an epoch's output key.
pub open spec fn rk_okm(rk: Seq<u8>, key: Seq<u8>) -> Seq<u8> {
    spec_hkdf_sha256(96, rk, key, scka_rk_info())
}

/// The chains of a fresh epoch: the first 32 derived bytes after the root
/// key key the initiator's sending chain (the responder's receiving chain),
/// the last 32 the other one.
pub open spec fn fresh_chains(c: KdfChains, okm: Seq<u8>, dir: Direction) -> bool {
    let (s, r) = if dir == Direction::A2B { (okm.subrange(32, 64), okm.subrange(64, 96)) } else {
        (okm.subrange(64, 96), okm.subrange(32, 64))
    };
    chain_is(c.sending, TypChain::Sending, s, 0) && chain_is(c.receiving, TypChain::Receiving, r, 0)
}

/// A state right after initialisation with `ss` in direction `dir`.
pub open spec fn init_post(res: SPQRState, ss: Seq<u8>, dir: Direction) -> bool {
    &&& res.epoch == 0
    &&& res.direction == dir
    &&& res.rk.0@ == init_okm(ss).subrange(0, 32)
    &&& res.kdfchains@.dom() == set![0u64]
    &&& fresh_chains(res.kdfchains@[0], init_okm(ss), dir)
    &&& res.mkskipped@ == Map::<u64, Option<HashMap<u64, [u8; 32]>>>::empty()
}

/// Removes every entry whose key is below `bound`.
pub fn remove_below<V>(m: &mut HashMap<u64, V>, bound: u64)
    ensures
        final(m)@ == old(m)@.restrict(old(m)@.dom().filter(|e: u64| e >= bound)),
{
    let mut to_remove: Vec<u64> = Vec::new();
    let keys = m.keys();
    proof {
        assert(keys.remaining().unref().to_set() == m@.dom());
    }
    for k in it: keys
        invariant
            to_remove@ == it.seq().take(it.index()).unref().filter(|e: u64| e < bound),
            it.seq().unref().to_set() == m@.dom(),
            forall|x: u64| #[trigger] to_remove@.contains(x) <==> (x < bound && exists|i: int| 0 <= i < it.index() && it.seq().unref()[i] == x),
            forall|x: u64| #[trigger] m@.contains_key(x) <==> exists|i: int| 0 <= i < it.seq().len() && it.seq().unref()[i] == x,
        ensures
            forall|x: u64| to_remove@.contains(x) <==> (m@.contains_key(x) && x < bound),
    {
        proof {
            assert(it.seq().take(it.index() + 1).unref() =~= it.seq().take(it.index()).unref().push(*k));
            it.seq().take(it.index()).unref().lemma_filter_push(*k, |e: u64| e < bound);
        }
        if *k < bound {
            to_remove.push(*k);
        }
        proof {
            assert forall|x: u64| m@.contains_key(x) <==> exists|i: int| 0 <= i < it.seq().len() && it.seq().unref()[i] == x by {
                if m@.contains_key(x) {
                    assert(it.seq().unref().to_set().contains(x));
                    assert(it.seq().unref().contains(x));
                }
            }
        }
    }
    let ghost m0 = m@;
    let mut j: usize = 0;
    while j < to_remove.len()
        invariant
            j <= to_remove@.len(),
            m@ == m0.remove_keys(to_remove@.take(j as int).to_set()),
        decreases to_remove@.len() - j,
    {
        m.remove(&to_remove[j]);
        proof {
            assert(to_remove@.take(j + 1).to_set() =~= to_remove@.take(j as int).to_set().insert(to_remove@[j as int]));
            assert(m@ =~= m0.remove_keys(to_remove@.take(j + 1).to_set()));
        }
        j = j + 1;
    }
    proof {
        assert(to_remove@.take(to_remove@.len() as int) =~= to_remove@);
        assert(m@ =~= m0.restrict(m0.dom().filter(|e: u64| e >= bound)));
    }
}


/// What mixing an epoch's output key into the state does (`ok` tells
/// whether it succeeded): a key for any epoch but the next one is refused;
/// otherwise a root step gives the new root key and the epoch's chains,
/// and the state moves to that epoch.
pub open spec fn output_rel(old: SPQRState, key: SCKAOutputKey, new: SPQRState, ok: bool) -> bool {
    if !(key.epoch >= 1 && old.epoch == key.epoch - 1) {
        !ok && new == old
    } else {
        &&& ok
        &&& new == (SPQRState { rk: new.rk, epoch: key.epoch, kdfchains: new.kdfchains, ..old })
        &&& new.rk.0@ == rk_okm(old.rk.0@, key.key@).subrange(0, 32)
        &&& new.kdfchains@ == old.kdfchains@.insert(key.epoch, new.kdfchains@[key.epoch])
        &&& fresh_chains(new.kdfchains@[key.epoch], rk_okm(old.rk.0@, key.key@), old.direction)
    }
}

/// The state without the entries of epochs below `sending_epoch - 2`, when
/// `sending_epoch` is above 1.
pub open spec fn cleared(old: SPQRState, sending_epoch: u64, new: SPQRState) -> bool {
    if sending_epoch > 1 {
        &&& new == (SPQRState { kdfchains: new.kdfchains, mkskipped: new.mkskipped, ..old })
        &&& new.kdfchains@ == old.kdfchains@.restrict(old.kdfchains@.dom().filter(|e: u64| e >= sending_epoch - 2))
        &&& new.mkskipped@ == old.mkskipped@.restrict(old.mkskipped@.dom().filter(|e: u64| e >= sending_epoch - 2))
    } else {
        new == old
    }
}

/// The epoch below `sending_epoch` keeps only its receiving chain; fails
/// when that epoch has no chains.
pub open spec fn retire_rel(old: SPQRState, sending_epoch: u64, new: SPQRState, ok: bool) -> bool {
    if sending_epoch > 0 {
        let e = (sending_epoch - 1) as u64;
        if old.kdfchains@.contains_key(e) {
            &&& ok
            &&& new == (SPQRState { kdfchains: new.kdfchains, ..old })
            &&& new.kdfchains@ == old.kdfchains@.insert(e, new.kdfchains@[e])
            &&& new.kdfchains@[e].receiving == old.kdfchains@[e].receiving
            &&& new.kdfchains@[e].sending is None
        } else {
            !ok && new == old
        }
    } else {
        ok && new == old
    }
}

/// The sending (or receiving) chain of a pair.
pub open spec fn chain_of(c: KdfChains, sending: bool) -> Option<KdfChain> {
    if sending { c.sending } else { c.receiving }
}

/// One step of the sending (or receiving) chain of epoch `e`: its counter
/// goes up by one and the step with the new counter gives the next chain
/// key and the message key. Fails when the epoch or the chain is missing
/// (the epoch's entry is then gone, if it was there) or the counter is
/// exhausted.
pub open spec fn next_key_rel<'a>(old: SPQRState, e: u64, sending: bool, new: SPQRState, res: Result<(u64, MessageKey), &'a str>) -> bool {
    if !old.kdfchains@.contains_key(e) {
        res is Err && new == (SPQRState { kdfchains: new.kdfchains, ..old }) && new.kdfchains@ == old.kdfchains@
    } else {
        let cur = old.kdfchains@[e];
        match chain_of(cur, sending) {
            None => res is Err && new == (SPQRState { kdfchains: new.kdfchains, ..old })
                && new.kdfchains@ == old.kdfchains@.remove(e),
            Some(c) => if c.counter == u64::MAX {
                res is Err && new == (SPQRState { kdfchains: new.kdfchains, ..old })
                    && new.kdfchains@ == old.kdfchains@.remove(e)
            } else {
                let n = (c.counter + 1) as u64;
                let okm = spec_kdf_scka_ck(c.kdf_key@, n);
                &&& res matches Ok((cnt, mk))
                &&& cnt == n
                &&& mk.0@ == okm.subrange(32, 64)
                &&& new == (SPQRState { kdfchains: new.kdfchains, ..old })
                &&& new.kdfchains@ == old.kdfchains@.insert(e, new.kdfchains@[e])
                &&& chain_of(new.kdfchains@[e], !sending) == chain_of(cur, !sending)
                &&& chain_of(new.kdfchains@[e], sending) matches Some(c2)
                &&& c2.typ_chain == c.typ_chain && c2.counter == n && c2.kdf_key@ == okm.subrange(0, 32)
            },
        }
    }
}

/// What the state does with the output of a braid send.
pub open spec fn after_send_rel<'a>(s0: SPQRState, bres: SendResult<'a>, new: SPQRState, res: Result<(SCKAMessage, u64, MessageKey), &'a str>) -> bool {
    match bres {
        Err(_) => res is Err && new == s0,
        Ok((msg, (se, okey))) => exists|s1: SPQRState, ok1: bool| #[trigger] send_epoch_rel(s0, okey, se, s1, ok1)
            && if !ok1 {
                res is Err && new == s1
            } else {
                exists|s2: SPQRState, ok2: bool| #[trigger] retire_rel(s1, se, s2, ok2) && if !ok2 {
                    res is Err && new == s2
                } else {
                    exists|kres: Result<(u64, MessageKey), &'a str>| #[trigger] next_key_rel(s2, se, true, new, kres)
                        && match kres {
                        Ok((n, mk)) => res == Ok::<(SCKAMessage, u64, MessageKey), &'a str>((msg, n, mk)),
                        Err(_) => res is Err,
                    }
                }
            },
    }
}

/// A new output key from a send moves the state to its epoch and drops the
/// epochs that are too old.
pub open spec fn send_epoch_rel(s0: SPQRState, okey: Option<SCKAOutputKey>, se: u64, s1: SPQRState, ok: bool) -> bool {
    match okey {
        None => ok && s1 == s0,
        Some(k) => exists|s: SPQRState| #[trigger] output_rel(s0, k, s, ok) && if ok { cleared(s, se, s1) } else { s1 == s },
    }
}

/// What `scka_ratchet_send_key` does.
pub open spec fn send_key_rel<'a>(old: SPQRState, new: SPQRState, res: Result<(SCKAMessage, u64, MessageKey), &'a str>) -> bool {
    exists|b: MlKemBraid, bres: SendResult<'a>| #[trigger] send_post(old.scka_state.state, b.state, bres)
        && after_send_rel(SPQRState { scka_state: b, ..old }, bres, new, res)
}

/// The bytes one entry of the skipped keys takes: its epoch, a tag, and
/// for a present map its length and its (number, key) pairs.
pub open spec fn mk_entry_size(v: Option<HashMap<u64, [u8; 32]>>) -> int {
    9 + match v {
        Some(inner) => 8 + (inner@.len() * 40) as int,
        None => 0int,
    }
}

/// Adds the size of the entry of `m` at `k`.
pub open spec fn add_entry_size(m: Map<u64, Option<HashMap<u64, [u8; 32]>>>) -> spec_fn(int, u64) -> int {
    |acc: int, k: u64| acc + mk_entry_size(m[k])
}

/// The bytes the skipped keys of the entries at `keys` take.
pub open spec fn mk_keys_size(m: Map<u64, Option<HashMap<u64, [u8; 32]>>>, keys: Set<u64>) -> int {
    keys.fold(0int, add_entry_size(m))
}

/// The bytes an SPQR state takes: root key, epoch, the chains of each
/// epoch, the skipped keys, the direction and the braid.
pub open spec fn spqr_size(s: SPQRState) -> int {
    vstd::layout::spec_size_of_val(&s.rk) + vstd::layout::spec_size_of_val(&s.epoch)
        + 8 + s.kdfchains@.len() * 90
        + 8 + mk_keys_size(s.mkskipped@, s.mkskipped@.dom())
        + vstd::layout::spec_size_of_val(&s.direction) + braid_size(s.scka_state.state)
}

/// An SPQR state takes a non-negative number of bytes.
pub proof fn lemma_spqr_size_nonneg(s: SPQRState)
    ensures
        spqr_size(s) >= 0,
{
    lemma_mk_keys_size_nonneg(s.mkskipped@, s.mkskipped@.dom());
    crate::ml_kem_braid::ml_kem_braid_impl::lemma_braid_size_nonneg(s.scka_state.state);
}

/// Folding the entry sizes does not depend on the order of the keys.
proof fn lemma_add_entry_size_commutative(m: Map<u64, Option<HashMap<u64, [u8; 32]>>>)
    ensures
        vstd::set::fold::is_fun_commutative(add_entry_size(m)),
{
}

/// The size of a set of entries is never negative.
proof fn lemma_mk_keys_size_nonneg(m: Map<u64, Option<HashMap<u64, [u8; 32]>>>, keys: Set<u64>)
    requires
        keys.finite(),
    ensures
        mk_keys_size(m, keys) >= 0,
    decreases keys.len(),
{
    lemma_add_entry_size_commutative(m);
    if keys.len() == 0 {
        assert(keys =~= Set::empty());
        vstd::set::fold::lemma_fold_empty(0int, add_entry_size(m));
    } else {
        let k = keys.choose();
        lemma_mk_keys_size_remove(m, keys, k);
        lemma_mk_keys_size_nonneg(m, keys.remove(k));
    }
}

/// The size of a set of entries is the size of one of them plus the size
/// of the rest.
proof fn lemma_mk_keys_size_remove(m: Map<u64, Option<HashMap<u64, [u8; 32]>>>, keys: Set<u64>, k: u64)
    requires
        keys.finite(),
        keys.contains(k),
    ensures
        mk_keys_size(m, keys) == mk_keys_size(m, keys.remove(k)) + mk_entry_size(m[k]),
{
    lemma_add_entry_size_commutative(m);
    assert(keys.remove(k).insert(k) =~= keys);
    vstd::set::fold::lemma_fold_insert(keys.remove(k), 0int, add_entry_size(m), k);
}

impl SPQRState {
    /// Approximate memory footprint in bytes.
    pub fn state_size(&self) -> (res: usize)
        requires
            spqr_size(*self) <= usize::MAX,
        ensures
            res == spqr_size(*self),
    {
        let ghost m = self.mkskipped@;
        proof {
            lemma_mk_keys_size_nonneg(m, m.dom());
            crate::ml_kem_braid::ml_kem_braid_impl::lemma_braid_size_nonneg(self.scka_state.state);
        }
        let rk_size = std::mem::size_of_val(&self.rk);
        let epoch_size = std::mem::size_of_val(&self.epoch);
        let kdfchains_size = 8 + self.kdfchains.len() * (8 + 1 + 32 + 8 + 1 + 32 + 8);
        let mut mkskipped_size: usize = 8;
        let keys = self.mkskipped.keys();
        proof {
            assert(keys.remaining().unref().to_set() == m.dom());
            vstd::set::fold::lemma_fold_empty(0int, add_entry_size(m));
            assert(mk_keys_size(m, Set::<u64>::empty()) == 0);
            assert(m.dom().difference(Set::<u64>::empty()) =~= m.dom());
            assert forall|sq: Seq<&u64>| #[trigger] sq.take(0).unref().to_set() == Set::<u64>::empty() by {
                assert(sq.take(0).unref().to_set() =~= Set::<u64>::empty());
            }
        }
        for k in it: keys
            invariant
                m == self.mkskipped@,
                it.seq().unref().to_set() == m.dom(),
                it.seq().no_duplicates(),
                spqr_size(*self) <= usize::MAX,
                mk_keys_size(m, m.dom()) >= 0,
                mkskipped_size == 8 + mk_keys_size(m, it.seq().take(it.index()).unref().to_set()),
                mk_keys_size(m, it.seq().take(it.index()).unref().to_set())
                    + mk_keys_size(m, m.dom().difference(it.seq().take(it.index()).unref().to_set()))
                    == mk_keys_size(m, m.dom()),
            forall|j: int| 0 <= j < it.index() ==> #[trigger] it.seq().unref().take(it.index()).to_set().contains(it.seq().unref()[j]),
        ensures
            mkskipped_size == 8 + mk_keys_size(m, m.dom()),
        {
            let ghost i = it.index();
            let ghost done = it.seq().take(i).unref().to_set();
            let ghost rest = m.dom().difference(done);
            proof {
                assert(it.seq().take(i + 1).unref() =~= it.seq().take(i).unref().push(*k));
                assert(it.seq().take(i + 1).unref().to_set() =~= done.insert(*k));
                assert(m.dom().contains(*k)) by {
                    assert(it.seq().unref()[i] == *k);
                    assert(it.seq().unref().to_set().contains(*k));
                }
                assert(!done.contains(*k)) by {
                    if done.contains(*k) {
                        let j = choose|j: int| 0 <= j < i && it.seq().take(i).unref()[j] == *k;
                        assert(it.seq()[j] == it.seq()[i]);
                    }
                }
                vstd::set_lib::lemma_set_subset_finite(m.dom(), rest);
                lemma_mk_keys_size_remove(m, done.insert(*k), *k);
                assert(done.insert(*k).remove(*k) =~= done);
                assert(rest.contains(*k));
                lemma_mk_keys_size_remove(m, rest, *k);
                assert(rest.remove(*k) =~= m.dom().difference(done.insert(*k)));
                lemma_mk_keys_size_nonneg(m, rest.remove(*k));
            }
            let entry: usize = match self.mkskipped.get(k) {
                Some(Some(inner)) => 9 + 8 + inner.len() * 40,
                Some(None) => 9,
                None => 9,
            };
            assert(entry == mk_entry_size(m[*k]));
            assert(mk_keys_size(m, done.insert(*k)) == mk_keys_size(m, done) + mk_entry_size(m[*k]));
            mkskipped_size = mkskipped_size + entry;
            assert(mkskipped_size == 8 + mk_keys_size(m, it.seq().take(i + 1).unref().to_set()));
        }
        let direction_size = std::mem::size_of_val(&self.direction);
        let scka_size = self.scka_state.state.state_size();
        rk_size + epoch_size + kdfchains_size + mkskipped_size + direction_size + scka_size
    }

    /// Well-formedness: the braid is well formed.
    pub open spec fn wf(&self) -> bool {
        self.scka_state.state.wf()
    }

    /// The initiator's state: epoch 0, the initial derivation from `ss`,
    /// the initiator's braid.
    pub fn ratchet_init_initiator(ss: &[u8; SHARED_SECRET_SIZE]) -> (res: Self)
        ensures
            init_post(res, ss@, Direction::A2B),
            is_initiator_braid(res.scka_state, ss@),
            res.wf(),
    {
        let scka_state = MlKemBraid::init_initiator(ss);
        Self::init_with(ss, Direction::A2B, scka_state)
    }

    /// The responder's state: epoch 0, the initial derivation from `ss`,
    /// the responder's braid.
    pub fn ratchet_init_responder(ss: &[u8; SHARED_SECRET_SIZE]) -> (res: Self)
        ensures
            init_post(res, ss@, Direction::B2A),
            is_responder_braid(res.scka_state, ss@),
            res.wf(),
    {
        let scka_state = MlKemBraid::init_responder(ss);
        Self::init_with(ss, Direction::B2A, scka_state)
    }

    fn init_with(ss: &[u8; SHARED_SECRET_SIZE], direction: Direction, scka_state: MlKemBraid) -> (res: Self)
        requires
            scka_state.state.wf(),
        ensures
            init_post(res, ss@, direction),
            res.scka_state == scka_state,
            res.wf(),
    {
        let (rk, ck1, ck2) = match KdfChain::kdf_scka_init(ss) {
            Ok(t) => t,
            Err(_) => (RootChainKey([0u8; 32]), crate::util::keys::ChainKey([0u8; 32]), crate::util::keys::ChainKey([0u8; 32])),
        };
        let (cks, ckr) = if direction == Direction::A2B { (ck1, ck2) } else { (ck2, ck1) };
        let kdf_chain_sending = KdfChain::new(TypChain::Sending, cks.0, 0);
        let kdf_chain_receiving = KdfChain::new(TypChain::Receiving, ckr.0, 0);
        let mut spqr_state = Self {
            rk,
            epoch: 0,
            kdfchains: HashMap::new(),
            mkskipped: HashMap::new(),
            direction,
            scka_state,
        };
        let kdfchains = KdfChains { receiving: Some(kdf_chain_receiving), sending: Some(kdf_chain_sending) };
        spqr_state.kdfchains.insert(0, kdfchains);
        proof {
            assert(spqr_state.kdfchains@.dom() =~= set![0u64]);
        }
        spqr_state
    }

    /// Mixes an epoch's output key into the state.
    fn apply_output_key<'a>(&mut self, key: SCKAOutputKey) -> (res: Result<(), &'a str>)
        ensures
            output_rel(*old(self), key, *final(self), res is Ok),
    {
        if key.epoch == 0 || self.epoch != key.epoch - 1 {
            return Err("The output key is not for the next epoch");
        }
        let (rk, ck1, ck2) = match KdfChain::kdf_scka_rk(self.rk, key.key) {
            Ok(t) => t,
            Err(e) => return Err(e),
        };
        self.rk = rk;
        let (cks, ckr) = if self.direction == Direction::B2A { (ck2, ck1) } else { (ck1, ck2) };
        let kdfchains = KdfChains {
            receiving: Some(KdfChain::new(TypChain::Receiving, ckr.0, 0)),
            sending: Some(KdfChain::new(TypChain::Sending, cks.0, 0)),
        };
        self.kdfchains.insert(key.epoch, kdfchains);
        self.epoch = key.epoch;
        proof {
            assert(self.kdfchains@ =~= old(self).kdfchains@.insert(key.epoch, self.kdfchains@[key.epoch]));
        }
        Ok(())
    }

    /// Drops the chains and skipped keys of epochs below `sending_epoch - 2`.
    pub fn clear_old_epochs(&mut self, sending_epoch: u64)
        ensures
            cleared(*old(self), sending_epoch, *final(self)),
    {
        if sending_epoch > 1 {
            remove_below(&mut self.kdfchains, sending_epoch - 2);
            remove_below(&mut self.mkskipped, sending_epoch - 2);
        }
    }

    /// Keeps only the receiving chain of the epoch below `sending_epoch`.
    fn retire_previous_sending<'a>(&mut self, sending_epoch: u64) -> (res: Result<(), &'a str>)
        ensures
            retire_rel(*old(self), sending_epoch, *final(self), res is Ok),
    {
        if sending_epoch > 0 {
            let chain = match self.kdfchains.get(&(sending_epoch - 1)) {
                Some(chain) => *chain,
                None => return Err("Couldn't find the KDF chain"),
            };
            let kdf_chain_insert = KdfChains { receiving: chain.receiving, sending: None };
            let _old = self.kdfchains.insert(sending_epoch - 1, kdf_chain_insert);
            proof {
                assert(self.kdfchains@ =~= old(self).kdfchains@.insert((sending_epoch - 1) as u64, self.kdfchains@[(sending_epoch - 1) as u64]));
            }
        }
        Ok(())
    }

    /// Steps the sending (or receiving) chain of `epoch`.
    fn next_chain_key<'a>(&mut self, epoch: u64, sending: bool) -> (res: Result<(u64, MessageKey), &'a str>)
        ensures
            next_key_rel(*old(self), epoch, sending, *final(self), res),
    {
        let mut current = match self.kdfchains.remove(&epoch) {
            Some(c) => c,
            None => {
                assert(self.kdfchains@ =~= old(self).kdfchains@);
                return Err("There is no Kdf Chain for the epoch");
            },
        };
        let chain = if sending { current.sending } else { current.receiving };
        let mut chain = match chain {
            Some(c) => c,
            None => return Err("No chain in this direction"),
        };
        if chain.counter == u64::MAX {
            return Err("The chain counter is exhausted");
        }
        chain.counter = chain.counter + 1;
        let (ck, mk) = match KdfChain::kdf_scka_ck(chain.kdf_key, chain.counter) {
            Ok(p) => p,
            Err(_) => return Err("Couldn't create the Chain key and Message key"),
        };
        chain.kdf_key = ck.0;
        let counter = chain.counter;
        if sending {
            current.sending = Some(chain);
        } else {
            current.receiving = Some(chain);
        }
        self.kdfchains.insert(epoch, current);
        proof {
            assert(self.kdfchains@ =~= old(self).kdfchains@.insert(epoch, self.kdfchains@[epoch]));
        }
        Ok((counter, mk))
    }

    /// The next braid message and the next sending message key: sends on
    /// the braid, moves to a new epoch when the braid yields an output key,
    /// retires the previous epoch's sending chain and steps the sending
    /// chain of the braid's sending epoch. Returns (message, message number,
    /// message key).
    pub fn scka_ratchet_send_key<'a>(&mut self) -> (res: Result<(SCKAMessage, u64, MessageKey), &'a str>)
        requires
            old(self).wf(),
        ensures
            final(self).wf(),
            send_key_rel(*old(self), *final(self), res),
            res matches Ok((msg, _, _)) ==> (msg.data matches Some(c) ==> c.data@.len() <= crate::util::constants::CHUNK_SIZE),
    {
        let ghost old_s = *self;
        let bres: SendResult<'a> = self.scka_state.send();
        let ghost b = self.scka_state;
        let ghost s0 = *self;
        assert(s0 == (SPQRState { scka_state: b, ..old_s }));
        let (msg, (sending_epoch, output_key)) = match bres {
            Ok(triplet) => triplet,
            Err(e) => {
                assert(after_send_rel(s0, bres, *self, Err::<(SCKAMessage, u64, MessageKey), &'a str>(e)));
                return Err(e);
            },
        };
        let ghost mut s_out = *self;
        let r1 = match output_key {
            Some(k) => {
                let r = self.apply_output_key(k);
                proof {
                    s_out = *self;
                }
                if r.is_ok() {
                    self.clear_old_epochs(sending_epoch);
                }
                r
            },
            None => Ok(()),
        };
        let ghost s1 = *self;
        let ghost ok1 = r1 is Ok;
        proof {
            if output_key is Some {
                assert(output_rel(s0, output_key->0, s_out, ok1));
            }
            assert(send_epoch_rel(s0, output_key, sending_epoch, s1, ok1));
        }
        if r1.is_err() {
            let res: Result<(SCKAMessage, u64, MessageKey), &'a str> = Err("The output key is not for the next epoch");
            proof {
                let kres: Result<(u64, MessageKey), &'a str> = Err("");
                assert(retire_rel(s1, sending_epoch, s1, false) || !retire_rel(s1, sending_epoch, s1, false));
                assert(next_key_rel(s1, sending_epoch, true, *self, kres) || !next_key_rel(s1, sending_epoch, true, *self, kres));
                assert(bres == Ok::<(SCKAMessage, (u64, Option<SCKAOutputKey>)), &'a str>((msg, (sending_epoch, output_key))));
                assert(send_epoch_rel(s0, output_key, sending_epoch, s1, ok1) && !ok1 && res is Err && *self == s1);
                assert(after_send_rel(s0, bres, *self, res));
            }
            return res;
        }
        let r2 = self.retire_previous_sending(sending_epoch);
        let ghost s2 = *self;
        let ghost ok2 = r2 is Ok;
        if r2.is_err() {
            let res: Result<(SCKAMessage, u64, MessageKey), &'a str> = Err("Couldn't find the KDF chain");
            proof {
                let kres: Result<(u64, MessageKey), &'a str> = Err("");
                assert(retire_rel(s1, sending_epoch, s2, ok2));
                assert(next_key_rel(s2, sending_epoch, true, *self, kres) || !next_key_rel(s2, sending_epoch, true, *self, kres));
                assert(bres == Ok::<(SCKAMessage, (u64, Option<SCKAOutputKey>)), &'a str>((msg, (sending_epoch, output_key))));
                assert(send_epoch_rel(s0, output_key, sending_epoch, s1, ok1) && ok1 && retire_rel(s1, sending_epoch, s2, ok2) && !ok2 && res is Err && *self == s2);
                assert(after_send_rel(s0, bres, *self, res));
            }
            return res;
        }
        let kres = self.next_chain_key(sending_epoch, true);
        let res: Result<(SCKAMessage, u64, MessageKey), &'a str> = match kres {
            Ok((n, mk)) => Ok((msg, n, mk)),
            Err(e) => Err(e),
        };
        proof {
            assert(retire_rel(s1, sending_epoch, s2, ok2));
            assert(next_key_rel(s2, sending_epoch, true, *self, kres));
            assert(after_send_rel(s0, bres, *self, res));
        }
        res
    }
}


} // verus!

verus! {

/// The stored keys of one epoch, as message number to key bytes.
pub open spec fn inner_view(m: HashMap<u64, [u8; 32]>) -> Map<u64, Seq<u8>> {
    Map::new(|k: u64| m@.contains_key(k), |k: u64| m@[k]@)
}

/// The skipped keys of all epochs.
pub open spec fn mks_view(m: Map<u64, Option<HashMap<u64, [u8; 32]>>>) -> Map<u64, Option<Map<u64, Seq<u8>>>> {
    Map::new(|e: u64| m.contains_key(e), |e: u64| match m[e] {
        Some(h) => Some(inner_view(h)),
        None => None,
    })
}

/// Taking the stored key of message `n` of epoch `e`, if there is one; an
/// epoch left without keys is dropped.
pub open spec fn try_skipped_rel(old: SPQRState, e: u64, n: u64, new: SPQRState, res: Option<MessageKey>) -> bool {
    let v = mks_view(old.mkskipped@);
    &&& new == (SPQRState { mkskipped: new.mkskipped, ..old })
    &&& if v.contains_key(e) && v[e] is Some && v[e]->0.contains_key(n) {
        &&& res matches Some(mk)
        &&& mk.0@ == v[e]->0[n]
        &&& mks_view(new.mkskipped@) == if v[e]->0.remove(n).is_empty() {
            v.remove(e)
        } else {
            v.insert(e, Some(v[e]->0.remove(n)))
        }
    } else {
        res is None && mks_view(new.mkskipped@) == v
    }
}

/// The stored keys after storing, for each counter after `c` up to
/// `until`, the message key of the chain step with that counter.
pub open spec fn spqr_store(m: Map<u64, Seq<u8>>, ck: Seq<u8>, c: nat, until: nat) -> Map<u64, Seq<u8>>
    decreases until - c,
{
    if c >= until {
        m
    } else {
        let okm = spec_kdf_scka_ck(ck, (c + 1) as u64);
        spqr_store(m.insert((c + 1) as u64, okm.subrange(32, 64)), okm.subrange(0, 32), c + 1, until)
    }
}

/// The chain key after the steps with the counters after `c` up to `until`.
pub open spec fn spqr_ck_after(ck: Seq<u8>, c: nat, until: nat) -> Seq<u8>
    decreases until - c,
{
    if c >= until {
        ck
    } else {
        spqr_ck_after(spec_kdf_scka_ck(ck, (c + 1) as u64).subrange(0, 32), c + 1, until)
    }
}

/// Storing the keys of the messages of epoch `e`'s receiving chain up to
/// `until`. An epoch without chains, or without a receiving chain, is left
/// alone; more than `MAX_SKIP` keys are refused (the epoch's entry is lost);
/// an epoch whose skipped-key slot is empty fails.
pub open spec fn spqr_skip_rel(old: SPQRState, e: u64, until: u64, new: SPQRState, ok: bool) -> bool {
    let k = old.kdfchains@;
    let v = mks_view(old.mkskipped@);
    &&& new == (SPQRState { kdfchains: new.kdfchains, mkskipped: new.mkskipped, ..old })
    &&& if !k.contains_key(e) {
        ok && new.kdfchains@ == k && mks_view(new.mkskipped@) == v
    } else {
        match k[e].receiving {
            None => ok && new.kdfchains@ == k && mks_view(new.mkskipped@) == v,
            Some(rc) => if rc.counter + MAX_SKIP < until {
                !ok && new.kdfchains@ == k.remove(e) && mks_view(new.mkskipped@) == v
            } else if rc.counter >= until {
                ok && new.kdfchains@ == k && mks_view(new.mkskipped@) == v
            } else if v.contains_key(e) && v[e] is None {
                !ok && new.kdfchains@ == k.remove(e) && mks_view(new.mkskipped@) == v.remove(e)
            } else {
                let start = if v.contains_key(e) { v[e]->0 } else { Map::empty() };
                &&& ok
                &&& mks_view(new.mkskipped@) == v.insert(e, Some(spqr_store(start, rc.kdf_key@, rc.counter as nat, until as nat)))
                &&& new.kdfchains@ == k.insert(e, new.kdfchains@[e])
                &&& new.kdfchains@[e].sending == k[e].sending
                &&& new.kdfchains@[e].receiving matches Some(rc2)
                &&& rc2.typ_chain == rc.typ_chain && rc2.counter == until
                &&& rc2.kdf_key@ == spqr_ck_after(rc.kdf_key@, rc.counter as nat, until as nat)
            },
        }
    }
}

/// A new output key from a receive moves the state to its epoch.
pub open spec fn recv_epoch_rel(s0: SPQRState, okey: Option<SCKAOutputKey>, s1: SPQRState, ok: bool) -> bool {
    match okey {
        None => ok && s1 == s0,
        Some(k) => output_rel(s0, k, s1, ok),
    }
}

/// Skipping the messages before message `pn` of epoch `e`.
pub open spec fn pre_skip_rel(s2: SPQRState, e: u64, pn: u64, s3: SPQRState, ok: bool) -> bool {
    if pn > 0 {
        spqr_skip_rel(s2, e, (pn - 1) as u64, s3, ok)
    } else {
        ok && s3 == s2
    }
}

/// The last step of a receive: the receiving chain's next key.
pub open spec fn recv_last_rel<'a>(s3: SPQRState, re: u64, new: SPQRState, res: Result<MessageKey, &'a str>) -> bool {
    exists|kres: Result<(u64, MessageKey), &'a str>| #[trigger] next_key_rel(s3, re, false, new, kres) && match kres {
        Ok((_, mk)) => res == Ok::<MessageKey, &'a str>(mk),
        Err(_) => res is Err,
    }
}

/// A receive after the epoch step: a stored key, or skipping and stepping.
pub open spec fn recv_keys_rel<'a>(s1: SPQRState, re: u64, pn: u64, new: SPQRState, res: Result<MessageKey, &'a str>) -> bool {
    exists|s2: SPQRState, mko: Option<MessageKey>| #[trigger] try_skipped_rel(s1, re, pn, s2, mko) && match mko {
        Some(mk) => res == Ok::<MessageKey, &'a str>(mk) && new == s2,
        None => exists|s3: SPQRState, ok3: bool| #[trigger] pre_skip_rel(s2, re, pn, s3, ok3)
            && if ok3 { recv_last_rel(s3, re, new, res) } else { res is Err && new == s3 },
    }
}

/// What the state does with the output of a braid receive.
pub open spec fn after_receive_rel<'a>(s0: SPQRState, pn: u64, bres: ReceiveResult<'a>, new: SPQRState, res: Result<MessageKey, &'a str>) -> bool {
    match bres {
        Err(_) => res is Err && new == s0,
        Ok((re, okey)) => exists|s1: SPQRState, ok1: bool| #[trigger] recv_epoch_rel(s0, okey, s1, ok1)
            && if ok1 { recv_keys_rel(s1, re, pn, new, res) } else { res is Err && new == s1 },
    }
}

/// What `scka_ratchet_receive_key` does.
pub open spec fn receive_key_rel<'a>(old: SPQRState, header: SCKAMessageHeader, new: SPQRState, res: Result<MessageKey, &'a str>) -> bool {
    exists|b: MlKemBraid, bres: ReceiveResult<'a>| #[trigger] receive_post(old.scka_state.state, header.message, b.state, bres)
        && after_receive_rel(SPQRState { scka_state: b, ..old }, header.pn, bres, new, res)
}

/// The tag of a braid message kind in the header encoding.
pub open spec fn type_tag(t: Option<SCKAMessageType>) -> u8 {
    match t {
        None => 0,
        Some(SCKAMessageType::Hdr) => 1,
        Some(SCKAMessageType::Ek) => 2,
        Some(SCKAMessageType::EkCt1Ack) => 3,
        Some(SCKAMessageType::Ct1Ack) => 4,
        Some(SCKAMessageType::Ct1) => 5,
        Some(SCKAMessageType::Ct2) => 6,
    }
}

/// The encoding of a braid message header: epoch, kind tag, the chunk as
/// index, length and bytes (four zero bytes for no chunk), and the
/// message number.
pub open spec fn scka_header_bytes(h: SCKAMessageHeader) -> Seq<u8> {
    spec_u64_be(h.message.epoch) + seq![type_tag(h.message.message_type)] + match h.message.data {
        None => seq![0u8, 0u8, 0u8, 0u8],
        Some(c) => spec_u32_be(c.index) + spec_u32_be(c.data@.len() as u32) + c.data@,
    } + spec_u64_be(h.pn)
}

impl SPQRState {
    /// A braid message with its message number.
    pub fn scka_header(msg: SCKAMessage, n: u64) -> (res: SCKAMessageHeader)
        ensures
            res.message == msg,
            res.pn == n,
    {
        SCKAMessageHeader { message: msg, pn: n }
    }

    /// Encodes a braid message header for authentication.
    pub fn scka_header_to_bytes(header: &SCKAMessageHeader) -> (res: Vec<u8>)
        ensures
            res@ == scka_header_bytes(*header),
    {
        let mut buf: Vec<u8> = Vec::new();
        let epoch_bytes = u64_to_be_bytes(header.message.epoch);
        append_bytes(&mut buf, &epoch_bytes);
        let type_tag: u8 = match &header.message.message_type {
            None => 0,
            Some(SCKAMessageType::Hdr) => 1,
            Some(SCKAMessageType::Ek) => 2,
            Some(SCKAMessageType::EkCt1Ack) => 3,
            Some(SCKAMessageType::Ct1Ack) => 4,
            Some(SCKAMessageType::Ct1) => 5,
            Some(SCKAMessageType::Ct2) => 6,
        };
        buf.push(type_tag);
        match &header.message.data {
            None => {
                let zeros = [0u8; 4];
                append_bytes(&mut buf, &zeros);
                assert(zeros@ =~= seq![0u8, 0u8, 0u8, 0u8]);
            },
            Some(chunk) => {
                let index_bytes = u32_to_be_bytes(chunk.index);
                append_bytes(&mut buf, &index_bytes);
                let len_bytes = u32_to_be_bytes(chunk.data.len() as u32);
                append_bytes(&mut buf, &len_bytes);
                append_bytes(&mut buf, chunk.data.as_slice());
            },
        }
        let pn_bytes = u64_to_be_bytes(header.pn);
        append_bytes(&mut buf, &pn_bytes);
        assert(buf@ =~= scka_header_bytes(*header));
        buf
    }
}


/// The view of skipped keys after removing an epoch.
proof fn lemma_mks_remove(m: Map<u64, Option<HashMap<u64, [u8; 32]>>>, e: u64)
    ensures
        mks_view(m.remove(e)) == mks_view(m).remove(e),
{
    assert(mks_view(m.remove(e)) =~= mks_view(m).remove(e));
}

/// The view of skipped keys after setting an epoch's slot.
proof fn lemma_mks_insert(m: Map<u64, Option<HashMap<u64, [u8; 32]>>>, e: u64, x: Option<HashMap<u64, [u8; 32]>>)
    ensures
        mks_view(m.insert(e, x)) == mks_view(m).insert(e, match x {
            Some(h) => Some(inner_view(h)),
            None => None,
        }),
{
    assert(mks_view(m.insert(e, x)) =~= mks_view(m).insert(e, match x {
        Some(h) => Some(inner_view(h)),
        None => None,
    }));
}

impl SPQRState {
    /// Takes the stored key of message `n` of epoch `key_epoch`, if it was
    /// skipped.
    pub fn try_skipped_message_keys(&mut self, key_epoch: u64, n: u64) -> (res: Option<MessageKey>)
        ensures
            try_skipped_rel(*old(self), key_epoch, n, *final(self), res),
    {
        let ghost m0 = self.mkskipped@;
        proof {
            lemma_mks_remove(m0, key_epoch);
        }
        match self.mkskipped.remove(&key_epoch) {
            Some(inner_option) => {
                proof {
                    lemma_mks_insert(m0.remove(key_epoch), key_epoch, inner_option);
                    assert(m0.remove(key_epoch).insert(key_epoch, inner_option) =~= m0);
                }
                match inner_option {
                    Some(inner_map) => {
                        let mut inner_map = inner_map;
                        let ghost inner0 = inner_map;
                        match inner_map.remove(&n) {
                            Some(mk_val) => {
                                proof {
                                    assert(inner_view(inner_map) =~= inner_view(inner0).remove(n));
                                    assert(inner_view(inner_map).is_empty() == inner_map@.is_empty()) by {
                                        if inner_map@.is_empty() {
                                            assert(inner_view(inner_map) =~= Map::empty());
                                        }
                                        if inner_view(inner_map).is_empty() {
                                            assert(inner_map@ =~= Map::empty());
                                        }
                                    }
                                }
                                if !inner_map.is_empty() {
                                    proof {
                                        lemma_mks_insert(m0.remove(key_epoch), key_epoch, Some(inner_map));
                                        assert(mks_view(m0).remove(key_epoch).insert(key_epoch, Some(inner_view(inner_map)))
                                            =~= mks_view(m0).insert(key_epoch, Some(inner_view(inner_map))));
                                    }
                                    self.mkskipped.insert(key_epoch, Some(inner_map));
                                }
                                return Some(MessageKey(mk_val));
                            },
                            None => {},
                        }
                        proof {
                            assert(inner_view(inner_map) =~= inner_view(inner0));
                            lemma_mks_insert(m0.remove(key_epoch), key_epoch, Some(inner_map));
                            assert(mks_view(m0).remove(key_epoch).insert(key_epoch, Some(inner_view(inner_map))) =~= mks_view(m0));
                        }
                        self.mkskipped.insert(key_epoch, Some(inner_map));
                    },
                    None => {
                        self.mkskipped.insert(key_epoch, None);
                    },
                }
            },
            None => {
                proof {
                    assert(self.mkskipped@ =~= m0);
                }
            },
        }
        None
    }

    /// Stores the keys of the messages of epoch `epoch`'s receiving chain
    /// up to `until` as skipped.
    pub fn skip_message_keys<'a>(&mut self, epoch: u64, until: u64) -> (res: Result<(), &'a str>)
        ensures
            spqr_skip_rel(*old(self), epoch, until, *final(self), res is Ok),
    {
        let ghost k0 = self.kdfchains@;
        let ghost v0 = mks_view(self.mkskipped@);
        let mut chain_state = match self.kdfchains.remove(&epoch) {
            Some(cs) => cs,
            None => {
                assert(self.kdfchains@ =~= k0);
                return Ok(());
            },
        };
        let mut receiving_chain = match chain_state.receiving {
            Some(rc) => rc,
            None => {
                self.kdfchains.insert(epoch, chain_state);
                assert(self.kdfchains@ =~= k0);
                return Ok(());
            },
        };
        if until > MAX_SKIP && receiving_chain.counter < until - MAX_SKIP {
            return Err("The epoch number of the received message is too far ahead");
        }
        if receiving_chain.counter >= until {
            self.kdfchains.insert(epoch, chain_state);
            assert(self.kdfchains@ =~= k0);
            return Ok(());
        }
        let start_ctr = receiving_chain.counter;
        let ghost ck0 = receiving_chain.kdf_key@;
        let ghost start: Map<u64, Seq<u8>> = if v0.contains_key(epoch) && v0[epoch] is Some { v0[epoch]->0 } else { Map::empty() };
        let ghost mut cur: Map<u64, Seq<u8>> = start;
        let mut ctr = start_ctr;
        while ctr < until
            invariant
                start_ctr <= ctr <= until,
                start_ctr == k0[epoch].receiving->0.counter,
                k0[epoch].receiving is Some,
                k0 == old(self).kdfchains@,
                start_ctr < until,
                !(start_ctr + MAX_SKIP < until),
                start == (if v0.contains_key(epoch) && v0[epoch] is Some { v0[epoch]->0 } else { Map::<u64, Seq<u8>>::empty() }),
                ck0 == k0[epoch].receiving->0.kdf_key@,
                k0.contains_key(epoch),
                chain_state == k0[epoch],
                receiving_chain.counter == ctr,
                receiving_chain.typ_chain == k0[epoch].receiving->0.typ_chain,
                self.kdfchains@ == k0.remove(epoch),
                *self == (SPQRState { kdfchains: self.kdfchains, mkskipped: self.mkskipped, ..*old(self) }),
                v0 == mks_view(old(self).mkskipped@),
                ctr == start_ctr ==> mks_view(self.mkskipped@) == v0 && cur == start,
                ctr > start_ctr ==> mks_view(self.mkskipped@) == v0.insert(epoch, Some(cur)),
                ctr > start_ctr ==> !(v0.contains_key(epoch) && v0[epoch] is None),
                spqr_store(cur, receiving_chain.kdf_key@, ctr as nat, until as nat)
                    == spqr_store(start, ck0, start_ctr as nat, until as nat),
                spqr_ck_after(receiving_chain.kdf_key@, ctr as nat, until as nat)
                    == spqr_ck_after(ck0, start_ctr as nat, until as nat),
            decreases until - ctr,
        {
            receiving_chain.counter = receiving_chain.counter + 1;
            let (ck, mk) = match KdfChain::kdf_scka_ck(receiving_chain.kdf_key, receiving_chain.counter) {
                Ok(pair) => pair,
                Err(_) => return Err("Could not make the Chain key and Message key"),
            };
            let ghost m_before = self.mkskipped@;
            let ghost mut fresh_g: Option<HashMap<u64, [u8; 32]>> = None;
            if !self.mkskipped.contains_key(&epoch) {
                let fresh: HashMap<u64, [u8; 32]> = HashMap::new();
                proof {
                    fresh_g = Some(fresh);
                }
                self.mkskipped.insert(epoch, Some(fresh));
            }
            let ghost m_mid = self.mkskipped@;
            proof {
                lemma_mks_remove(m_mid, epoch);
                if m_before.contains_key(epoch) {
                    assert(m_mid == m_before);
                    assert(mks_view(m_before).contains_key(epoch));
                    assert(mks_view(m_before)[epoch] == (match m_before[epoch] {
                        Some(h) => Some(inner_view(h)),
                        None => None,
                    }));
                    if ctr > start_ctr {
                        assert(mks_view(m_before)[epoch] == Some(cur));
                    }
                }
            }
            let inner_map_option = match self.mkskipped.remove(&epoch) {
                Some(x) => x,
                None => return Err("Couldn't find the epoch in the mkskipped"),
            };
            proof {
                if !m_before.contains_key(epoch) {
                    lemma_mks_insert(m_before, epoch, fresh_g);
                    assert(self.mkskipped@ =~= m_before);
                    lemma_mks_remove(m_before, epoch);
                    assert(mks_view(self.mkskipped@) =~= mks_view(m_before).remove(epoch));
                }
            }
            let mut inner_map = match inner_map_option {
                Some(m) => m,
                None => {
                    proof {
                        assert(m_before.contains_key(epoch));
                        assert(ctr == start_ctr);
                        assert(v0 == mks_view(m_before));
                        assert(v0.contains_key(epoch) && v0[epoch] is None);
                        assert(mks_view(self.mkskipped@) =~= v0.remove(epoch));
                    }
                    return Err("Inner skipped map was unexpectedly None");
                },
            };
            proof {
                if ctr == start_ctr {
                    if m_before.contains_key(epoch) {
                        assert(v0 == mks_view(m_before));
                        assert(v0[epoch] == Some(inner_view(inner_map)));
                        assert(inner_view(inner_map) =~= start);
                    } else {
                        assert(inner_view(inner_map) =~= start);
                    }
                } else {
                    assert(inner_view(inner_map) == cur);
                }
            }
            receiving_chain.kdf_key = ck.0;
            let ghost inner_before = inner_map;
            inner_map.insert(receiving_chain.counter, mk.0);
            proof {
                assert(inner_view(inner_map) =~= inner_view(inner_before).insert(receiving_chain.counter, mk.0@));
                cur = inner_view(inner_map);
                lemma_mks_insert(self.mkskipped@, epoch, Some(inner_map));
            }
            self.mkskipped.insert(epoch, Some(inner_map));
            proof {
                lemma_mks_remove(m_mid, epoch);
                assert(mks_view(self.mkskipped@) =~= v0.insert(epoch, Some(cur)));
            }
            ctr = ctr + 1;
        }
        chain_state.receiving = Some(receiving_chain);
        self.kdfchains.insert(epoch, chain_state);
        proof {
            assert(spqr_store(cur, receiving_chain.kdf_key@, ctr as nat, until as nat) == cur);
            assert(self.kdfchains@ =~= k0.insert(epoch, self.kdfchains@[epoch]));
        }
        Ok(())
    }
}


impl SPQRState {
    /// The message key of a received message: takes in the braid message,
    /// moves to a new epoch when it yields an output key, then returns a
    /// stored skipped key or stores the keys of the messages before this one
    /// and steps the receiving chain of the braid's receiving epoch.
    pub fn scka_ratchet_receive_key<'a>(&mut self, header: SCKAMessageHeader) -> (res: Result<MessageKey, &'a str>)
        requires
            old(self).wf(),
        ensures
            final(self).wf(),
            receive_key_rel(*old(self), header, *final(self), res),
    {
        let ghost old_s = *self;
        let ghost hdr = header;
        let SCKAMessageHeader { message, pn } = header;
        let bres: ReceiveResult<'a> = self.scka_state.receive(message);
        let ghost s0 = *self;
        assert(s0 == (SPQRState { scka_state: s0.scka_state, ..old_s }));
        let (receiving_epoch, output_key) = match bres {
            Ok(p) => p,
            Err(e) => {
                assert(after_receive_rel(s0, pn, bres, *self, Err::<MessageKey, &'a str>(e)));
                return Err(e);
            },
        };
        let r1 = match output_key {
            Some(k) => self.apply_output_key(k),
            None => Ok(()),
        };
        let ghost s1 = *self;
        assert(recv_epoch_rel(s0, output_key, s1, r1 is Ok));
        if r1.is_err() {
            let res: Result<MessageKey, &'a str> = Err("The output key is not for the next epoch");
            assert(after_receive_rel(s0, pn, bres, *self, res));
            return res;
        }
        let mk = self.try_skipped_message_keys(receiving_epoch, pn);
        let ghost s2 = *self;
        assert(try_skipped_rel(s1, receiving_epoch, pn, s2, mk));
        match mk {
            Some(mk) => {
                let res: Result<MessageKey, &'a str> = Ok(mk);
                assert(recv_keys_rel(s1, receiving_epoch, pn, *self, res));
                assert(after_receive_rel(s0, pn, bres, *self, res));
                return res;
            },
            None => {},
        }
        let r3 = if pn > 0 {
            self.skip_message_keys(receiving_epoch, pn - 1)
        } else {
            Ok(())
        };
        let ghost s3 = *self;
        assert(pre_skip_rel(s2, receiving_epoch, pn, s3, r3 is Ok));
        if r3.is_err() {
            let res: Result<MessageKey, &'a str> = Err("Could not skip the message keys");
            assert(recv_keys_rel(s1, receiving_epoch, pn, *self, res));
            assert(after_receive_rel(s0, pn, bres, *self, res));
            return res;
        }
        let kres = self.next_chain_key(receiving_epoch, false);
        let res: Result<MessageKey, &'a str> = match kres {
            Ok((_, mk)) => Ok(mk),
            Err(e) => Err(e),
        };
        proof {
            assert(next_key_rel(s3, receiving_epoch, false, *self, kres));
            assert(recv_last_rel(s3, receiving_epoch, *self, res));
            assert(recv_keys_rel(s1, receiving_epoch, pn, *self, res));
            assert(after_receive_rel(s0, pn, bres, *self, res));
        }
        res
    }
}


impl SPQRState {
    /// Encrypts a message under the next sending key of the sparse ratchet,
    /// authenticating `ad` and the braid message header.
    pub fn scka_ratchet_encrypt(&mut self, plaintext: String, ad: &[u8; 64]) -> (res: Result<(SCKAMessageHeader, Vec<u8>), String>)
        requires
            old(self).wf(),
            encode_utf8(plaintext@).len() < usize::MAX / 2,
            encode_utf8(plaintext@).len() + 256 <= u32::MAX,
        ensures
            final(self).wf(),
            exists|kres: Result<(SCKAMessage, u64, MessageKey), &str>| #[trigger] send_key_rel(*old(self), *final(self), kres)
                && match kres {
                Err(_) => res is Err,
                Ok((msg, n, mk)) => res matches Ok((h, ct)) && h.message == msg && h.pn == n
                    && ct@ == spec_encrypt(mk.0@, encode_utf8(plaintext@), ad@ + scka_header_bytes(h)),
            },
    {
        let kres = self.scka_ratchet_send_key();
        let (msg, n, mk) = match kres {
            Ok(t) => t,
            Err(e) => return Err(e.to_string()),
        };
        let header = SPQRState::scka_header(msg, n);
        let header_bytes = SPQRState::scka_header_to_bytes(&header);
        let mut ad_header: Vec<u8> = Vec::new();
        append_bytes(&mut ad_header, ad);
        append_bytes(&mut ad_header, header_bytes.as_slice());
        let pt = plaintext.as_str();
        let cipher_text = encrypt(&mk, pt, ad_header.as_slice());
        Ok((header, cipher_text))
    }

    /// Decrypts a message with a braid message header under the sparse
    /// ratchet's key for it.
    pub fn scka_ratchet_decrypt<'a>(&mut self, header: SCKAMessageHeader, ciphertext: &[u8], ad: &[u8; 64]) -> (res: Result<String, &'a str>)
        requires
            old(self).wf(),
            ciphertext@.len() >= 32,
            64 + scka_header_bytes(header).len() + ciphertext@.len() <= u32::MAX,
        ensures
            final(self).wf(),
            exists|kres: Result<MessageKey, &'a str>| #[trigger] receive_key_rel(*old(self), header, *final(self), kres)
                && match kres {
                Err(_) => res is Err,
                Ok(mk) => match res {
                    Ok(s) => spec_decrypt(mk.0@, ciphertext@, ad@ + scka_header_bytes(header)) == Some(s@),
                    Err(_) => spec_decrypt(mk.0@, ciphertext@, ad@ + scka_header_bytes(header)) is None,
                },
            },
    {
        let header_bytes = SPQRState::scka_header_to_bytes(&header);
        let mut ad_header: Vec<u8> = Vec::new();
        append_bytes(&mut ad_header, ad);
        append_bytes(&mut ad_header, header_bytes.as_slice());
        let kres = self.scka_ratchet_receive_key(header);
        let mk = match kres {
            Ok(mk) => mk,
            Err(e) => return Err(e),
        };
        let ct = copy_range(ciphertext, 0, ciphertext.len());
        assert(ct@ =~= ciphertext@);
        decrypt(&mk, &ct, ad_header.as_slice())
    }
}


/// Both parties of a session start the sparse ratchet in step: from the
/// same secret, the initiator's and the responder's states have the same
/// root key, and each one's first sending chain is the other's first
/// receiving chain.
pub proof fn law_init_chains_agree(a: SPQRState, b: SPQRState, ss: Seq<u8>)
    requires
        init_post(a, ss, Direction::A2B),
        init_post(b, ss, Direction::B2A),
    ensures
        a.rk.0@ == b.rk.0@,
        a.epoch == b.epoch,
        a.kdfchains@[0].sending.unwrap().kdf_key@ == b.kdfchains@[0].receiving.unwrap().kdf_key@,
        a.kdfchains@[0].receiving.unwrap().kdf_key@ == b.kdfchains@[0].sending.unwrap().kdf_key@,
        a.kdfchains@[0].sending.unwrap().counter == b.kdfchains@[0].receiving.unwrap().counter,
{
}


/// A new epoch keeps the two parties in step: when both are in the same
/// epoch with the same root key, in opposite directions, and mix in the
/// same output key of the next epoch, they again share the root key and
/// the epoch, and each one's sending chain of the new epoch is the other's
/// receiving chain, both at counter 0.
pub proof fn law_epoch_chains_agree(a: SPQRState, b: SPQRState, ka: SCKAOutputKey, kb: SCKAOutputKey, a1: SPQRState, b1: SPQRState)
    requires
        a.rk.0@ == b.rk.0@,
        a.epoch == b.epoch,
        a.direction == Direction::A2B,
        b.direction == Direction::B2A,
        ka.key@ == kb.key@,
        ka.epoch == kb.epoch,
        output_rel(a, ka, a1, true),
        output_rel(b, kb, b1, true),
    ensures
        a1.rk.0@ == b1.rk.0@,
        a1.epoch == b1.epoch,
        a1.kdfchains@[a1.epoch].sending.unwrap().kdf_key@ == b1.kdfchains@[b1.epoch].receiving.unwrap().kdf_key@,
        a1.kdfchains@[a1.epoch].receiving.unwrap().kdf_key@ == b1.kdfchains@[b1.epoch].sending.unwrap().kdf_key@,
        a1.kdfchains@[a1.epoch].sending.unwrap().counter == 0,
        b1.kdfchains@[b1.epoch].receiving.unwrap().counter == 0,
{
}


/// The braid's first send from the initiator's state: a header chunk of
/// epoch 1, no output key, sending epoch 0.
proof fn lemma_first_braid_send<'a>(b0: MlKemBraid, ss: Seq<u8>, b1: MlKemBraid, bres: SendResult<'a>)
    requires
        is_initiator_braid(b0, ss),
        send_post(b0.state, b1.state, bres),
    ensures
        ({
            &&& bres matches Ok((msg, (se, okey)))
            &&& se == 0
            &&& okey is None
            &&& msg.epoch == 1
            &&& msg.message_type == Some(SCKAMessageType::Hdr)
            &&& msg.data matches Some(c)
            &&& c.data@.len() <= CHUNK_SIZE
        }),
{
    let (e, a) = match b0.state {
        BraidState::KeysUnsampled { ku_epoch, ku_auth } => (ku_epoch, ku_auth),
        _ => (0, b0.state.auth()),
    };
    match bres {
        Ok((msg, info)) => {
            let r = Ok::<(SCKAMessage, (u64, Option<SCKAOutputKey>), BraidState), &'a str>((msg, info, b1.state));
            let seed = choose|seed: Seq<u8>| seed.len() == 64 && #[trigger] post_send_keys_unsampled(
                e, a, spec_ml_kem_768_compressed_key_pair(seed), r);
            let kp = spec_ml_kem_768_compressed_key_pair(seed);
            assert(kp.len() == DECAPSULATION_KEY_SIZE);
            let data = kp_header(kp) + hdr_mac(a, e, kp_header(kp).subrange(0, 32), kp_header(kp).subrange(32, 64));
            assert(data.len() > 0);
            lemma_chunks_shape(data, CHUNK_SIZE as nat, 0);
            assert(spec_chunks(data, CHUNK_SIZE as nat, 0).len() > 0);
        },
        Err(_) => {},
    }
}

/// The initiator's first send from its fresh state: message 1 of epoch 0,
/// a braid message whose chunk holds at most `CHUNK_SIZE` bytes, under the
/// key of the first step of the initial sending chain.
pub proof fn lemma_first_send<'a>(ss: Seq<u8>, a0: SPQRState, a1: SPQRState, sres: Result<(SCKAMessage, u64, MessageKey), &'a str>)
    requires
        init_post(a0, ss, Direction::A2B),
        is_initiator_braid(a0.scka_state, ss),
        send_key_rel(a0, a1, sres),
    ensures
        ({
            &&& sres matches Ok((msg, n, mk))
            &&& n == 1
            &&& msg.data matches Some(c) && c.data@.len() <= CHUNK_SIZE
            &&& mk.0@ == spec_kdf_scka_ck(a0.kdfchains@[0].sending.unwrap().kdf_key@, 1).subrange(32, 64)
        }),
{
    let (ba, bres) = choose|b: MlKemBraid, bres: SendResult<'a>| #[trigger] send_post(a0.scka_state.state, b.state, bres)
        && after_send_rel(SPQRState { scka_state: b, ..a0 }, bres, a1, sres);
    lemma_first_braid_send(a0.scka_state, ss, ba, bres);
    let s0 = SPQRState { scka_state: ba, ..a0 };
    assert(send_epoch_rel(s0, None, 0, s0, true));
    assert(retire_rel(s0, 0, s0, true));
    let ka = s0.kdfchains@[0].sending.unwrap();
    assert(ka.counter == 0);
}

/// The first message key of each side agrees: the initiator's first send
/// from its fresh state, received by the responder's fresh state from the
/// same secret, gives the responder the message key the initiator got.
pub proof fn law_first_message_keys_agree<'a>(
    ss: Seq<u8>,
    a0: SPQRState,
    a1: SPQRState,
    sres: Result<(SCKAMessage, u64, MessageKey), &'a str>,
    b0: SPQRState,
    b1: SPQRState,
    rres: Result<MessageKey, &'a str>,
)
    requires
        init_post(a0, ss, Direction::A2B),
        is_initiator_braid(a0.scka_state, ss),
        init_post(b0, ss, Direction::B2A),
        is_responder_braid(b0.scka_state, ss),
        send_key_rel(a0, a1, sres),
        sres matches Ok((msg, n, _mk)) ==> receive_key_rel(b0, SCKAMessageHeader { message: msg, pn: n }, b1, rres),
    ensures
        sres is Ok,
        ({
            &&& sres matches Ok((msg, n, mk_a))
            &&& n == 1
            &&& msg.data matches Some(c) && c.data@.len() <= CHUNK_SIZE
            &&& rres matches Ok(mk_b)
            &&& mk_b.0@ == mk_a.0@
        }),
{
    lemma_first_send(ss, a0, a1, sres);
    let ka = a0.kdfchains@[0].sending.unwrap();
    match sres {
        Ok((msg, n, mk_a)) => {
            // the responder's side
            let hdr = SCKAMessageHeader { message: msg, pn: n };
            let (bb, bres2) = choose|b: MlKemBraid, bres: ReceiveResult<'a>|
                #[trigger] receive_post(b0.scka_state.state, hdr.message, b.state, bres)
                && after_receive_rel(SPQRState { scka_state: b, ..b0 }, hdr.pn, bres, b1, rres);
            assert({
                &&& bres2 matches Ok((re, okey))
                &&& re == 0
                &&& okey is None
            });
            let t0 = SPQRState { scka_state: bb, ..b0 };
            assert(recv_epoch_rel(t0, None, t0, true));
            let kb = t0.kdfchains@[0].receiving.unwrap();
            assert(kb.kdf_key@ == ka.kdf_key@);
            assert(kb.counter == 0);
            assert(mks_view(t0.mkskipped@) =~= Map::<u64, Option<Map<u64, Seq<u8>>>>::empty());
            let (t2, mko) = choose|s2: SPQRState, mko: Option<MessageKey>| #[trigger] try_skipped_rel(t0, 0, 1, s2, mko)
                && match mko {
                    Some(mk) => rres == Ok::<MessageKey, &'a str>(mk) && b1 == s2,
                    None => exists|s3: SPQRState, ok3: bool| #[trigger] pre_skip_rel(s2, 0, 1, s3, ok3)
                        && if ok3 { recv_last_rel(s3, 0, b1, rres) } else { rres is Err && b1 == s3 },
                };
            assert(mko is None);
            let (t3, ok3) = choose|s3: SPQRState, ok3: bool| #[trigger] pre_skip_rel(t2, 0, 1, s3, ok3)
                && if ok3 { recv_last_rel(s3, 0, b1, rres) } else { rres is Err && b1 == s3 };
            assert(ok3);
            assert(t3.kdfchains@ == t0.kdfchains@);
        },
        Err(_) => {},
    }
}


/// A receiver is in step with a sender on epoch `e`: its receiving chain of
/// `e` is the sender's sending chain of `e` (same key, same counter), it
/// stores no key of `e` past that counter, and the sender can retire the
/// epoch before `e`.
pub open spec fn spqr_in_step(s: SPQRState, r: SPQRState, e: u64) -> bool {
    let v = mks_view(r.mkskipped@);
    &&& s.kdfchains@.contains_key(e) && r.kdfchains@.contains_key(e)
    &&& s.kdfchains@[e].sending matches Some(cs)
    &&& r.kdfchains@[e].receiving matches Some(cr)
    &&& cs.kdf_key@ == cr.kdf_key@ && cs.counter == cr.counter
    &&& v.contains_key(e) && v[e] is Some ==> forall|k: u64| #[trigger] v[e]->0.contains_key(k) ==> k <= cr.counter
    &&& e == 0 || s.kdfchains@.contains_key((e - 1) as u64)
}

/// The braid reports epoch `e` and no new key for every outcome of a send
/// from `b`.
pub open spec fn braid_sends_in(b: BraidState, e: u64) -> bool {
    forall|b2: MlKemBraid, bres: SendResult| #[trigger] send_post(b, b2.state, bres)
        ==> (bres matches Ok((_msg, (se, okey))) && se == e && okey is None)
}

/// The braid reports epoch `e` and no new key for every outcome of
/// receiving `msg` in `b`.
pub open spec fn braid_receives_in(b: BraidState, msg: SCKAMessage, e: u64) -> bool {
    forall|b2: MlKemBraid, bres: ReceiveResult| #[trigger] receive_post(b, msg, b2.state, bres)
        ==> (bres matches Ok((re, okey)) && re == e && okey is None)
}

/// Messages within an epoch arrive in order: when the receiver is in step
/// with the sender on epoch `e` and both braids report that epoch with no
/// new key for the message, the key the sender sends under is the key the
/// receiver gets for the message's header, and both move on in step.
pub proof fn law_in_epoch_delivery<'a>(
    e: u64,
    s: SPQRState,
    s2: SPQRState,
    sres: Result<(SCKAMessage, u64, MessageKey), &'a str>,
    r: SPQRState,
    r2: SPQRState,
    rres: Result<MessageKey, &'a str>,
)
    requires
        spqr_in_step(s, r, e),
        braid_sends_in(s.scka_state.state, e),
        send_key_rel(s, s2, sres),
        sres matches Ok((msg, n, _mk)) ==> braid_receives_in(r.scka_state.state, msg, e)
            && receive_key_rel(r, SCKAMessageHeader { message: msg, pn: n }, r2, rres),
    ensures
        s.kdfchains@[e].sending.unwrap().counter < u64::MAX ==> sres is Ok,
        sres matches Ok((_msg, _n, mk)) ==> {
            &&& rres matches Ok(mk2)
            &&& mk2.0@ == mk.0@
            &&& spqr_in_step(s2, r2, e)
        },
{
    let (ba, bres) = choose|b: MlKemBraid, bres: SendResult<'a>| #[trigger] send_post(s.scka_state.state, b.state, bres)
        && after_send_rel(SPQRState { scka_state: b, ..s }, bres, s2, sres);
    let s0 = SPQRState { scka_state: ba, ..s };
    assert(bres matches Ok((_msg, (se, okey))) && se == e && okey is None);
    let (msg0, _info) = bres.unwrap();
    assert(send_epoch_rel(s0, None, e, s0, true));
    let (s1, ok1) = choose|s1: SPQRState, ok1: bool| #[trigger] send_epoch_rel(s0, None, e, s1, ok1)
        && if !ok1 {
            sres is Err && s2 == s1
        } else {
            exists|s2x: SPQRState, ok2: bool| #[trigger] retire_rel(s1, e, s2x, ok2) && if !ok2 {
                sres is Err && s2 == s2x
            } else {
                exists|kres: Result<(u64, MessageKey), &'a str>| #[trigger] next_key_rel(s2x, e, true, s2, kres)
                    && match kres {
                    Ok((n, mk)) => sres == Ok::<(SCKAMessage, u64, MessageKey), &'a str>((msg0, n, mk)),
                    Err(_) => sres is Err,
                }
            }
        };
    assert(s1 == s0 && ok1);
    let (sr, ok2) = choose|s2x: SPQRState, ok2: bool| #[trigger] retire_rel(s1, e, s2x, ok2) && if !ok2 {
        sres is Err && s2 == s2x
    } else {
        exists|kres: Result<(u64, MessageKey), &'a str>| #[trigger] next_key_rel(s2x, e, true, s2, kres)
            && match kres {
            Ok((n, mk)) => sres == Ok::<(SCKAMessage, u64, MessageKey), &'a str>((msg0, n, mk)),
            Err(_) => sres is Err,
        }
    };
    assert(ok2);
    assert(sr.kdfchains@[e] == s.kdfchains@[e]);
    let cs = s.kdfchains@[e].sending.unwrap();
    let kres = choose|kres: Result<(u64, MessageKey), &'a str>| #[trigger] next_key_rel(sr, e, true, s2, kres)
        && match kres {
        Ok((n, mk)) => sres == Ok::<(SCKAMessage, u64, MessageKey), &'a str>((msg0, n, mk)),
        Err(_) => sres is Err,
    };
    if let Ok((msg, n, mk)) = sres {
        assert(n == cs.counter + 1);
        let hdr = SCKAMessageHeader { message: msg, pn: n };
        let (bb, bres2) = choose|b: MlKemBraid, bres: ReceiveResult<'a>|
            #[trigger] receive_post(r.scka_state.state, hdr.message, b.state, bres)
            && after_receive_rel(SPQRState { scka_state: b, ..r }, hdr.pn, bres, r2, rres);
        assert(bres2 matches Ok((re, okey)) && re == e && okey is None);
        let t0 = SPQRState { scka_state: bb, ..r };
        assert(recv_epoch_rel(t0, None, t0, true));
        let cr = r.kdfchains@[e].receiving.unwrap();
        let (t2, mko) = choose|s2x: SPQRState, mko: Option<MessageKey>| #[trigger] try_skipped_rel(t0, e, n, s2x, mko)
            && match mko {
                Some(mk) => rres == Ok::<MessageKey, &'a str>(mk) && r2 == s2x,
                None => exists|s3: SPQRState, ok3: bool| #[trigger] pre_skip_rel(s2x, e, n, s3, ok3)
                    && if ok3 { recv_last_rel(s3, e, r2, rres) } else { rres is Err && r2 == s3 },
            };
        let v = mks_view(r.mkskipped@);
        if v.contains_key(e) && v[e] is Some && v[e]->0.contains_key(n) {
            assert(n <= cr.counter);
        }
        assert(mko is None);
        let (t3, ok3) = choose|s3: SPQRState, ok3: bool| #[trigger] pre_skip_rel(t2, e, n, s3, ok3)
            && if ok3 { recv_last_rel(s3, e, r2, rres) } else { rres is Err && r2 == s3 };
        assert(t3.kdfchains@ == t2.kdfchains@ && mks_view(t3.mkskipped@) == mks_view(t2.mkskipped@));
        assert(ok3);
        let kres2 = choose|kres: Result<(u64, MessageKey), &'a str>| #[trigger] next_key_rel(t3, e, false, r2, kres)
            && match kres {
            Ok((_, mk)) => rres == Ok::<MessageKey, &'a str>(mk),
            Err(_) => rres is Err,
        };
        assert(mks_view(r2.mkskipped@) == v);
    }
}


/// A braid state whose next send carries no new epoch key and cannot fail:
/// any state but the one that samples the encapsulation, and, where a state
/// sends from an encoder that may run dry, one with chunks left.
pub open spec fn sends_quietly(b: BraidState) -> bool {
    &&& b.epoch() >= 1
    &&& match b {
        BraidState::HeaderReceived { .. } => false,
        BraidState::HeaderSent { hs_ek_encoder, .. } => hs_ek_encoder.chunks@.len() > 0,
        BraidState::EkReceivedCt1Sampled { ekrct1s_ct1_encoder, .. } => ekrct1s_ct1_encoder.chunks@.len() > 0,
        _ => true,
    }
}

/// A braid that sends quietly reports the epoch before its own and no new
/// key, whatever the send draws.
pub proof fn law_quiet_send_epoch(b: BraidState)
    requires
        sends_quietly(b),
    ensures
        braid_sends_in(b, (b.epoch() - 1) as u64),
{
    assert forall|b2: MlKemBraid, bres: SendResult| #[trigger] send_post(b, b2.state, bres)
        implies (bres matches Ok((_msg, (se, okey))) && se == (b.epoch() - 1) as u64 && okey is None) by {
        match b {
            BraidState::KeysUnsampled { ku_epoch, ku_auth } => {
                let r = match bres {
                    Ok((msg, info)) => Ok::<(SCKAMessage, (u64, Option<SCKAOutputKey>), BraidState), &str>((msg, info, b2.state)),
                    Err(e) => Err(e),
                };
                let seed = choose|seed: Seq<u8>| seed.len() == 64 && #[trigger] post_send_keys_unsampled(
                    ku_epoch, ku_auth, spec_ml_kem_768_compressed_key_pair(seed), r);
            },
            _ => {},
        }
    }
}


/// One send within epoch `e`, by a sender whose braid stays in `e` and who
/// can retire the epoch before: the sending chain of `e` takes one step,
/// and the send succeeds exactly when its counter is not exhausted.
proof fn lemma_send_in_epoch<'a>(
    e: u64,
    s: SPQRState,
    s2: SPQRState,
    sres: Result<(SCKAMessage, u64, MessageKey), &'a str>,
    cs: KdfChain,
)
    requires
        s.kdfchains@.contains_key(e),
        s.kdfchains@[e].sending == Some(cs),
        e == 0 || s.kdfchains@.contains_key((e - 1) as u64),
        braid_sends_in(s.scka_state.state, e),
        send_key_rel(s, s2, sres),
    ensures
        (cs.counter < u64::MAX) == (sres is Ok),
        sres matches Ok((_msg, n, mk)) ==> {
            &&& n == cs.counter + 1
            &&& mk.0@ == spec_kdf_scka_ck(cs.kdf_key@, n).subrange(32, 64)
            &&& s2.kdfchains@.contains_key(e)
            &&& s2.kdfchains@[e].sending matches Some(c2)
            &&& c2.counter == n
            &&& c2.kdf_key@ == spec_kdf_scka_ck(cs.kdf_key@, n).subrange(0, 32)
            &&& e == 0 || s2.kdfchains@.contains_key((e - 1) as u64)
        },
{
    let (ba, bres) = choose|b: MlKemBraid, bres: SendResult<'a>| #[trigger] send_post(s.scka_state.state, b.state, bres)
        && after_send_rel(SPQRState { scka_state: b, ..s }, bres, s2, sres);
    let s0 = SPQRState { scka_state: ba, ..s };
    assert(bres matches Ok((_msg, (se, okey))) && se == e && okey is None);
    let (msg0, _info) = bres.unwrap();
    assert(send_epoch_rel(s0, None, e, s0, true));
    let (s1, ok1) = choose|s1: SPQRState, ok1: bool| #[trigger] send_epoch_rel(s0, None, e, s1, ok1)
        && if !ok1 {
            sres is Err && s2 == s1
        } else {
            exists|s2x: SPQRState, ok2: bool| #[trigger] retire_rel(s1, e, s2x, ok2) && if !ok2 {
                sres is Err && s2 == s2x
            } else {
                exists|kres: Result<(u64, MessageKey), &'a str>| #[trigger] next_key_rel(s2x, e, true, s2, kres)
                    && match kres {
                    Ok((n, mk)) => sres == Ok::<(SCKAMessage, u64, MessageKey), &'a str>((msg0, n, mk)),
                    Err(_) => sres is Err,
                }
            }
        };
    assert(s1 == s0 && ok1);
    let (sr, ok2) = choose|s2x: SPQRState, ok2: bool| #[trigger] retire_rel(s1, e, s2x, ok2) && if !ok2 {
        sres is Err && s2 == s2x
    } else {
        exists|kres: Result<(u64, MessageKey), &'a str>| #[trigger] next_key_rel(s2x, e, true, s2, kres)
            && match kres {
            Ok((n, mk)) => sres == Ok::<(SCKAMessage, u64, MessageKey), &'a str>((msg0, n, mk)),
            Err(_) => sres is Err,
        }
    };
    assert(ok2);
    assert(sr.kdfchains@[e] == s.kdfchains@[e]);
    let kres = choose|kres: Result<(u64, MessageKey), &'a str>| #[trigger] next_key_rel(sr, e, true, s2, kres)
        && match kres {
        Ok((n, mk)) => sres == Ok::<(SCKAMessage, u64, MessageKey), &'a str>((msg0, n, mk)),
        Err(_) => sres is Err,
    };
    if e > 0 {
        assert(sr.kdfchains@.contains_key((e - 1) as u64));
    }
}

/// Receiving, within epoch `e`, the message after the next expected one
/// (its header carries the counter `cr.counter + 2`): the key of the next
/// expected message is stored as skipped, the receiving chain takes two
/// steps, and the second step's message key comes back.
proof fn lemma_receive_one_ahead<'a>(
    e: u64,
    r: SPQRState,
    cr: KdfChain,
    msg: SCKAMessage,
    r1: SPQRState,
    rres: Result<MessageKey, &'a str>,
)
    requires
        r.kdfchains@.contains_key(e),
        r.kdfchains@[e].receiving == Some(cr),
        cr.counter + 2 <= u64::MAX,
        mks_view(r.mkskipped@).contains_key(e) ==> {
            &&& mks_view(r.mkskipped@)[e] is Some
            &&& forall|k: u64| #[trigger] mks_view(r.mkskipped@)[e]->0.contains_key(k) ==> k <= cr.counter
        },
        braid_receives_in(r.scka_state.state, msg, e),
        receive_key_rel(r, SCKAMessageHeader { message: msg, pn: (cr.counter + 2) as u64 }, r1, rres),
    ensures
        ({
            let v = mks_view(r.mkskipped@);
            let start = if v.contains_key(e) { v[e]->0 } else { Map::<u64, Seq<u8>>::empty() };
            let okm1 = spec_kdf_scka_ck(cr.kdf_key@, (cr.counter + 1) as u64);
            let okm2 = spec_kdf_scka_ck(okm1.subrange(0, 32), (cr.counter + 2) as u64);
            &&& rres matches Ok(mk) && mk.0@ == okm2.subrange(32, 64)
            &&& r1.kdfchains@.contains_key(e)
            &&& r1.kdfchains@[e].receiving matches Some(c2)
            &&& c2.counter == cr.counter + 2
            &&& c2.kdf_key@ == okm2.subrange(0, 32)
            &&& mks_view(r1.mkskipped@) == v.insert(e, Some(start.insert((cr.counter + 1) as u64, okm1.subrange(32, 64))))
        }),
{
    let n = (cr.counter + 2) as u64;
    let hdr = SCKAMessageHeader { message: msg, pn: n };
    let v = mks_view(r.mkskipped@);
    let start = if v.contains_key(e) { v[e]->0 } else { Map::<u64, Seq<u8>>::empty() };
    let okm1 = spec_kdf_scka_ck(cr.kdf_key@, (cr.counter + 1) as u64);
    let (bb, bres) = choose|b: MlKemBraid, bres: ReceiveResult<'a>|
        #[trigger] receive_post(r.scka_state.state, hdr.message, b.state, bres)
        && after_receive_rel(SPQRState { scka_state: b, ..r }, hdr.pn, bres, r1, rres);
    assert(bres matches Ok((re, okey)) && re == e && okey is None);
    let t0 = SPQRState { scka_state: bb, ..r };
    assert(recv_epoch_rel(t0, None, t0, true));
    let (t2, mko) = choose|s2x: SPQRState, mko: Option<MessageKey>| #[trigger] try_skipped_rel(t0, e, n, s2x, mko)
        && match mko {
            Some(mk) => rres == Ok::<MessageKey, &'a str>(mk) && r1 == s2x,
            None => exists|s3: SPQRState, ok3: bool| #[trigger] pre_skip_rel(s2x, e, n, s3, ok3)
                && if ok3 { recv_last_rel(s3, e, r1, rres) } else { rres is Err && r1 == s3 },
        };
    if v.contains_key(e) && v[e] is Some && v[e]->0.contains_key(n) {
        assert(n <= cr.counter);
    }
    assert(mko is None);
    let (t3, ok3) = choose|s3: SPQRState, ok3: bool| #[trigger] pre_skip_rel(t2, e, n, s3, ok3)
        && if ok3 { recv_last_rel(s3, e, r1, rres) } else { rres is Err && r1 == s3 };
    assert(spqr_store(start, cr.kdf_key@, cr.counter as nat, (cr.counter + 1) as nat)
        == start.insert((cr.counter + 1) as u64, okm1.subrange(32, 64))) by {
        reveal_with_fuel(spqr_store, 2);
    }
    assert(spqr_ck_after(cr.kdf_key@, cr.counter as nat, (cr.counter + 1) as nat) == okm1.subrange(0, 32)) by {
        reveal_with_fuel(spqr_ck_after, 2);
    }
    assert(ok3);
    let kres2 = choose|kres: Result<(u64, MessageKey), &'a str>| #[trigger] next_key_rel(t3, e, false, r1, kres)
        && match kres {
        Ok((_, mk)) => rres == Ok::<MessageKey, &'a str>(mk),
        Err(_) => rres is Err,
    };
}

/// The stored keys of a receiver after a late message of epoch `e` has
/// taken its key back: as before, save that a slot of `e` left with no
/// key is dropped.
pub open spec fn skipped_after_late(v: Map<u64, Option<Map<u64, Seq<u8>>>>, e: u64) -> Map<u64, Option<Map<u64, Seq<u8>>>> {
    if v.contains_key(e) && v[e] is Some && v[e]->0.is_empty() {
        v.remove(e)
    } else {
        v
    }
}

/// Messages within an epoch may arrive out of order: when the receiver is
/// in step with the sender on epoch `e`, the sender sends two messages and
/// both braids stay in `e`, receiving the second message first gives the
/// key it was sent under, and receiving the first one afterwards gives the
/// first key, taken from the stored skipped keys. Both end in step, and the
/// receiver's stored keys are as before (an emptied slot of `e` dropped).
pub proof fn law_late_in_epoch_delivery<'a>(
    e: u64,
    s: SPQRState,
    s1: SPQRState,
    sres1: Result<(SCKAMessage, u64, MessageKey), &'a str>,
    s2: SPQRState,
    sres2: Result<(SCKAMessage, u64, MessageKey), &'a str>,
    r: SPQRState,
    r1: SPQRState,
    rres1: Result<MessageKey, &'a str>,
    r2: SPQRState,
    rres2: Result<MessageKey, &'a str>,
)
    requires
        spqr_in_step(s, r, e),
        !(mks_view(r.mkskipped@).contains_key(e) && mks_view(r.mkskipped@)[e] is None),
        braid_sends_in(s.scka_state.state, e),
        send_key_rel(s, s1, sres1),
        braid_sends_in(s1.scka_state.state, e),
        send_key_rel(s1, s2, sres2),
        sres1 matches Ok((m1, n1, _k1)) ==> (sres2 matches Ok((m2, n2, _k2)) ==> {
            &&& braid_receives_in(r.scka_state.state, m2, e)
            &&& receive_key_rel(r, SCKAMessageHeader { message: m2, pn: n2 }, r1, rres1)
            &&& braid_receives_in(r1.scka_state.state, m1, e)
            &&& receive_key_rel(r1, SCKAMessageHeader { message: m1, pn: n1 }, r2, rres2)
        }),
    ensures
        s.kdfchains@[e].sending.unwrap().counter < u64::MAX - 1 ==> sres1 is Ok && sres2 is Ok,
        sres1 matches Ok((_m1, _n1, k1)) ==> (sres2 matches Ok((_m2, _n2, k2)) ==> {
            &&& rres1 matches Ok(x) && x.0@ == k2.0@
            &&& rres2 matches Ok(y) && y.0@ == k1.0@
            &&& spqr_in_step(s2, r2, e)
            &&& mks_view(r2.mkskipped@) == skipped_after_late(mks_view(r.mkskipped@), e)
        }),
{
    let cs = s.kdfchains@[e].sending.unwrap();
    let cr = r.kdfchains@[e].receiving.unwrap();
    lemma_send_in_epoch(e, s, s1, sres1, cs);
    if let Ok((m1, n1, k1)) = sres1 {
        let cs1 = s1.kdfchains@[e].sending.unwrap();
        lemma_send_in_epoch(e, s1, s2, sres2, cs1);
        if let Ok((m2, n2, k2)) = sres2 {
            let c = cr.counter;
            let v = mks_view(r.mkskipped@);
            let start = if v.contains_key(e) { v[e]->0 } else { Map::<u64, Seq<u8>>::empty() };
            let okm1 = spec_kdf_scka_ck(cr.kdf_key@, (c + 1) as u64);
            lemma_receive_one_ahead(e, r, cr, m2, r1, rres1);
            let v1 = mks_view(r1.mkskipped@);
            assert(v1 == v.insert(e, Some(start.insert((c + 1) as u64, okm1.subrange(32, 64)))));
            let (bb, bres) = choose|b: MlKemBraid, bres: ReceiveResult<'a>|
                #[trigger] receive_post(r1.scka_state.state, m1, b.state, bres)
                && after_receive_rel(SPQRState { scka_state: b, ..r1 }, n1, bres, r2, rres2);
            assert(bres matches Ok((re, okey)) && re == e && okey is None);
            let t0 = SPQRState { scka_state: bb, ..r1 };
            assert(recv_epoch_rel(t0, None, t0, true));
            let (t2, mko) = choose|s2x: SPQRState, mko: Option<MessageKey>| #[trigger] try_skipped_rel(t0, e, n1, s2x, mko)
                && match mko {
                    Some(mk) => rres2 == Ok::<MessageKey, &'a str>(mk) && r2 == s2x,
                    None => exists|s3: SPQRState, ok3: bool| #[trigger] pre_skip_rel(s2x, e, n1, s3, ok3)
                        && if ok3 { recv_last_rel(s3, e, r2, rres2) } else { rres2 is Err && r2 == s3 },
                };
            assert(v1[e]->0.contains_key(n1));
            assert(mko is Some);
            let rest = start.insert((c + 1) as u64, okm1.subrange(32, 64)).remove((c + 1) as u64);
            assert(!start.contains_key((c + 1) as u64));
            assert(rest =~= start);
            if start.is_empty() {
                assert(v1.remove(e) =~= skipped_after_late(v, e));
            } else {
                assert(v.contains_key(e));
                assert(v1.insert(e, Some(rest)) =~= v);
            }
            let w = mks_view(r2.mkskipped@);
            assert(w == skipped_after_late(v, e));
            assert forall|k: u64| w.contains_key(e) && w[e] is Some && #[trigger] w[e]->0.contains_key(k)
                implies k <= r2.kdfchains@[e].receiving->0.counter by {
                assert(start.contains_key(k));
            }
        }
    }
}

} // verus!
