use vstd::prelude::*;
use vstd::string::StringSliceAdditionalSpecFns;
use crate::util::helper_func::{append_bytes, is_ascii_bytes, lemma_ascii_concat, ascii_chars, ascii_string, debug_bytes, lemma_ascii_literal, lemma_debug_bytes_ascii, lemma_decimal_ascii, push_debug_bytes, push_decimal, push_str, spec_decimal};
use crate::kdf_chain::kdf_chain_impl::{KdfChain, spec_kdf_rk_chain, spec_kdf_rk_root};
use crate::pqxdh::pqxdh_impl::{gen_curve_key_pair, spec_x25519_public};
use crate::util::keys::{ChainKey, MessageKey, RootChainKey, X25519KeyPair, X25519PublicKey};
use crate::util::libcrux_wrap::{libcrux_ecdh_x25519_derive, spec_x25519_derive};

verus! {

/// A skipped message key, indexed by the ratchet public key of its chain
/// and its message number.
pub type SkippedKey = ((X25519PublicKey, u64), MessageKey);

/// State of the Diffie-Hellman ratchet.
#[derive(Debug)]
pub struct StateDHRatchet {
    /// Own ratchet key pair.
    pub dhs: X25519KeyPair,
    /// The peer's ratchet public key, once received.
    pub dhr: Option<X25519PublicKey>,
    pub rk: RootChainKey,
    pub ckr: Option<ChainKey>,
    pub cks: Option<ChainKey>,
    /// Messages sent in the current sending chain.
    pub ns: u64,
    /// Messages received in the current receiving chain.
    pub nr: u64,
    /// Messages in the previous sending chain.
    pub pn: u64,
    /// Keys of messages skipped over, at most one per (public key, number).
    pub mk_skipped: Vec<SkippedKey>,
}

impl Clone for StateDHRatchet {
    fn clone(&self) -> (res: Self)
        ensures
            res.dhs == self.dhs,
            res.dhr == self.dhr,
            res.rk == self.rk,
            res.ckr == self.ckr,
            res.cks == self.cks,
            res.ns == self.ns,
            res.nr == self.nr,
            res.pn == self.pn,
            res.mk_skipped@ == self.mk_skipped@,
    {
        let mut mk_skipped: Vec<SkippedKey> = Vec::new();
        let mut i: usize = 0;
        while i < self.mk_skipped.len()
            invariant
                i <= self.mk_skipped@.len(),
                mk_skipped@ == self.mk_skipped@.take(i as int),
            decreases self.mk_skipped@.len() - i,
        {
            mk_skipped.push(self.mk_skipped[i]);
            i = i + 1;
            proof {
                assert(mk_skipped@ =~= self.mk_skipped@.take(i as int));
            }
        }
        proof {
            assert(self.mk_skipped@.take(self.mk_skipped@.len() as int) =~= self.mk_skipped@);
        }
        StateDHRatchet {
            dhs: self.dhs,
            dhr: self.dhr,
            rk: self.rk,
            ckr: self.ckr,
            cks: self.cks,
            ns: self.ns,
            nr: self.nr,
            pn: self.pn,
            mk_skipped,
        }
    }
}

/// The bytes a Diffie-Hellman ratchet state takes: its key pair, the
/// optional peer key and chain keys with their tags, the root key, the
/// counters and the skipped keys.
pub open spec fn dr_size(s: StateDHRatchet) -> int {
    64 + 1 + (if s.dhr is Some { 32int } else { 0 }) + 32 + 1 + (if s.cks is Some { 32int } else { 0 })
        + 1 + (if s.ckr is Some { 32int } else { 0 }) + 24 + 8 + s.mk_skipped@.len() * 72
}

/// A Diffie-Hellman ratchet state takes a non-negative number of bytes.
pub proof fn lemma_dr_size_nonneg(s: StateDHRatchet)
    ensures
        dr_size(s) >= 0,
{
}

/// A key as `Debug` prints it: `Name([1, 2, ...])`.
pub open spec fn key_debug(name: &str, b: Seq<u8>) -> Seq<u8> {
    name.spec_bytes() + "(".spec_bytes() + debug_bytes(b) + ")".spec_bytes()
}

/// An optional key as `Debug` prints it.
pub open spec fn opt_key_debug(k: Option<X25519PublicKey>) -> Seq<u8> {
    match k {
        Some(k) => "Some(".spec_bytes() + key_debug("X25519PublicKey", k.0@) + ")".spec_bytes(),
        None => "None".spec_bytes(),
    }
}

/// Whether a chain key is there, without showing it.
pub open spec fn chain_presence(c: Option<ChainKey>) -> Seq<u8> {
    if c is Some { "Some(...)".spec_bytes() } else { "None".spec_bytes() }
}

/// A labelled line.
pub open spec fn line_bytes(label: &str, body: Seq<u8>) -> Seq<u8> {
    label.spec_bytes() + body + "\n".spec_bytes()
}

/// The lines describing a state.
pub open spec fn dr_describe_lines(s: StateDHRatchet) -> Seq<Seq<u8>> {
    seq![
        "StateDHRatchet {\n".spec_bytes(),
        line_bytes("  dhs.public:  ", key_debug("X25519PublicKey", s.dhs.public_key.0@)),
        line_bytes("  dhr:         ", opt_key_debug(s.dhr)),
        line_bytes("  rk:          ", key_debug("RootChainKey", s.rk.0@)),
        line_bytes("  cks:         ", chain_presence(s.cks)),
        line_bytes("  ckr:         ", chain_presence(s.ckr)),
        line_bytes("  ns:          ", spec_decimal(s.ns as nat)),
        line_bytes("  nr:          ", spec_decimal(s.nr as nat)),
        line_bytes("  pn:          ", spec_decimal(s.pn as nat)),
        line_bytes("  mk_skipped:  ", spec_decimal(s.mk_skipped@.len()) + " entries".spec_bytes()),
        "}".spec_bytes()
    ]
}

/// The parts joined, in order.
pub open spec fn concat_all(parts: Seq<Seq<u8>>) -> Seq<u8>
    decreases parts.len(),
{
    if parts.len() == 0 {
        Seq::empty()
    } else {
        concat_all(parts.drop_last()) + parts.last()
    }
}

/// How a Diffie-Hellman ratchet state reads: its public key, the peer's
/// key, the root key, whether the chains are there, the counters and the
/// number of skipped keys, one per line.
pub open spec fn dr_describe_bytes(s: StateDHRatchet) -> Seq<u8> {
    concat_all(dr_describe_lines(s))
}

/// ASCII parts join to ASCII.
proof fn lemma_concat_all_ascii(parts: Seq<Seq<u8>>)
    requires
        forall|j: int| 0 <= j < parts.len() ==> is_ascii_bytes(#[trigger] parts[j]),
    ensures
        is_ascii_bytes(concat_all(parts)),
    decreases parts.len(),
{
    if parts.len() > 0 {
        lemma_concat_all_ascii(parts.drop_last());
        lemma_ascii_concat(concat_all(parts.drop_last()), parts.last());
    }
}

/// An ASCII line.
proof fn lemma_line_ascii(label: &str, body: Seq<u8>)
    requires
        is_ascii_bytes(label.spec_bytes()),
        is_ascii_bytes(body),
    ensures
        is_ascii_bytes(line_bytes(label, body)),
{
    reveal_strlit("\n");
    lemma_ascii_literal("\n");
    lemma_ascii_concat(label.spec_bytes(), body);
    lemma_ascii_concat(label.spec_bytes() + body, "\n".spec_bytes());
}

/// The `Debug` form of a key is ASCII.
proof fn lemma_key_debug_ascii(name: &str, b: Seq<u8>)
    requires
        is_ascii_bytes(name.spec_bytes()),
    ensures
        is_ascii_bytes(key_debug(name, b)),
{
    reveal_strlit("(");
    reveal_strlit(")");
    lemma_ascii_literal("(");
    lemma_ascii_literal(")");
    lemma_debug_bytes_ascii(b);
    lemma_ascii_concat(name.spec_bytes(), "(".spec_bytes());
    lemma_ascii_concat(name.spec_bytes() + "(".spec_bytes(), debug_bytes(b));
    lemma_ascii_concat(name.spec_bytes() + "(".spec_bytes() + debug_bytes(b), ")".spec_bytes());
}

/// The description of a state is ASCII.
proof fn lemma_dr_describe_ascii(s: StateDHRatchet)
    ensures
        is_ascii_bytes(dr_describe_bytes(s)),
{
    reveal_strlit("StateDHRatchet {\n");
    lemma_ascii_literal("StateDHRatchet {\n");
    reveal_strlit("  dhs.public:  ");
    lemma_ascii_literal("  dhs.public:  ");
    reveal_strlit("X25519PublicKey");
    lemma_ascii_literal("X25519PublicKey");
    reveal_strlit("  dhr:         ");
    lemma_ascii_literal("  dhr:         ");
    reveal_strlit("Some(");
    lemma_ascii_literal("Some(");
    reveal_strlit("None");
    lemma_ascii_literal("None");
    reveal_strlit("  rk:          ");
    lemma_ascii_literal("  rk:          ");
    reveal_strlit("RootChainKey");
    lemma_ascii_literal("RootChainKey");
    reveal_strlit("  cks:         ");
    lemma_ascii_literal("  cks:         ");
    reveal_strlit("Some(...)");
    lemma_ascii_literal("Some(...)");
    reveal_strlit("  ckr:         ");
    lemma_ascii_literal("  ckr:         ");
    reveal_strlit("  ns:          ");
    lemma_ascii_literal("  ns:          ");
    reveal_strlit("  nr:          ");
    lemma_ascii_literal("  nr:          ");
    reveal_strlit("  pn:          ");
    lemma_ascii_literal("  pn:          ");
    reveal_strlit("  mk_skipped:  ");
    lemma_ascii_literal("  mk_skipped:  ");
    reveal_strlit(" entries");
    lemma_ascii_literal(" entries");
    reveal_strlit("}");
    lemma_ascii_literal("}");
    reveal_strlit(")");
    lemma_ascii_literal(")");
    reveal_strlit("\n");
    lemma_ascii_literal("\n");
    lemma_key_debug_ascii("X25519PublicKey", s.dhs.public_key.0@);
    lemma_key_debug_ascii("RootChainKey", s.rk.0@);
    if let Some(k) = s.dhr {
        lemma_key_debug_ascii("X25519PublicKey", k.0@);
        lemma_ascii_concat("Some(".spec_bytes(), key_debug("X25519PublicKey", k.0@));
        lemma_ascii_concat("Some(".spec_bytes() + key_debug("X25519PublicKey", k.0@), ")".spec_bytes());
    }
    lemma_decimal_ascii(s.ns as nat);
    lemma_decimal_ascii(s.nr as nat);
    lemma_decimal_ascii(s.pn as nat);
    lemma_decimal_ascii(s.mk_skipped@.len());
    lemma_ascii_concat(spec_decimal(s.mk_skipped@.len()), " entries".spec_bytes());
    lemma_line_ascii("  dhs.public:  ", key_debug("X25519PublicKey", s.dhs.public_key.0@));
    lemma_line_ascii("  dhr:         ", opt_key_debug(s.dhr));
    lemma_line_ascii("  rk:          ", key_debug("RootChainKey", s.rk.0@));
    lemma_line_ascii("  cks:         ", chain_presence(s.cks));
    lemma_line_ascii("  ckr:         ", chain_presence(s.ckr));
    lemma_line_ascii("  ns:          ", spec_decimal(s.ns as nat));
    lemma_line_ascii("  nr:          ", spec_decimal(s.nr as nat));
    lemma_line_ascii("  pn:          ", spec_decimal(s.pn as nat));
    lemma_line_ascii("  mk_skipped:  ", spec_decimal(s.mk_skipped@.len()) + " entries".spec_bytes());
    let parts = dr_describe_lines(s);
    assert forall|j: int| 0 <= j < parts.len() implies is_ascii_bytes(#[trigger] parts[j]) by {}
    lemma_concat_all_ascii(parts);
}

/// Appends a labelled line.
fn push_line(out: &mut Vec<u8>, label: &str, body: &[u8])
    ensures
        final(out)@ == old(out)@ + line_bytes(label, body@),
{
    push_str(out, label);
    append_bytes(out, body);
    push_str(out, "\n");
    assert(final(out)@ =~= old(out)@ + line_bytes(label, body@));
}

/// The `Debug` form of a key.
fn key_debug_vec(name: &str, b: &[u8]) -> (res: Vec<u8>)
    ensures
        res@ == key_debug(name, b@),
{
    let mut out: Vec<u8> = Vec::new();
    push_str(&mut out, name);
    push_str(&mut out, "(");
    push_debug_bytes(b, &mut out);
    push_str(&mut out, ")");
    assert(out@ =~= key_debug(name, b@));
    out
}

/// Appends the next part to a prefix of the parts.
proof fn lemma_concat_all_step(parts: Seq<Seq<u8>>, k: int)
    requires
        0 <= k < parts.len(),
    ensures
        concat_all(parts.take(k + 1)) == concat_all(parts.take(k)) + parts[k],
{
    assert(parts.take(k + 1).drop_last() =~= parts.take(k));
}

impl StateDHRatchet {
    /// The state, one field per line, keys in `Debug` form and chain keys
    /// hidden.
    pub fn describe(&self) -> (res: String)
        ensures
            res@ == ascii_chars(dr_describe_bytes(*self)),
    {
        proof {
            lemma_dr_describe_ascii(*self);
            reveal_strlit("StateDHRatchet {\n");
            reveal_strlit("  dhs.public:  ");
            reveal_strlit("X25519PublicKey");
            reveal_strlit("  dhr:         ");
            reveal_strlit("Some(");
            reveal_strlit("None");
            reveal_strlit("  rk:          ");
            reveal_strlit("RootChainKey");
            reveal_strlit("  cks:         ");
            reveal_strlit("Some(...)");
            reveal_strlit("  ckr:         ");
            reveal_strlit("  ns:          ");
            reveal_strlit("  nr:          ");
            reveal_strlit("  pn:          ");
            reveal_strlit("  mk_skipped:  ");
            reveal_strlit(" entries");
            reveal_strlit("}");
            reveal_strlit(")");
            reveal_strlit("\n");
        }
        let ghost parts = dr_describe_lines(*self);
        let mut out: Vec<u8> = Vec::new();
        assert(parts.take(0) =~= Seq::<Seq<u8>>::empty());
        push_str(&mut out, "StateDHRatchet {\n");
        proof { lemma_concat_all_step(parts, 0); }
        let k1 = key_debug_vec("X25519PublicKey", &self.dhs.public_key.0);
        push_line(&mut out, "  dhs.public:  ", k1.as_slice());
        proof { lemma_concat_all_step(parts, 1); }
        let mut d: Vec<u8> = Vec::new();
        match self.dhr {
            Some(k) => {
                push_str(&mut d, "Some(");
                let kd = key_debug_vec("X25519PublicKey", &k.0);
                append_bytes(&mut d, kd.as_slice());
                push_str(&mut d, ")");
            },
            None => push_str(&mut d, "None"),
        }
        assert(d@ =~= opt_key_debug(self.dhr));
        push_line(&mut out, "  dhr:         ", d.as_slice());
        proof { lemma_concat_all_step(parts, 2); }
        let k2 = key_debug_vec("RootChainKey", &self.rk.0);
        push_line(&mut out, "  rk:          ", k2.as_slice());
        proof { lemma_concat_all_step(parts, 3); }
        let cks: &str = if self.cks.is_some() { "Some(...)" } else { "None" };
        push_line(&mut out, "  cks:         ", cks.as_bytes());
        proof { lemma_concat_all_step(parts, 4); }
        let ckr: &str = if self.ckr.is_some() { "Some(...)" } else { "None" };
        push_line(&mut out, "  ckr:         ", ckr.as_bytes());
        proof { lemma_concat_all_step(parts, 5); }
        let mut ns: Vec<u8> = Vec::new();
        push_decimal(self.ns, &mut ns);
        assert(ns@ =~= spec_decimal(self.ns as nat));
        push_line(&mut out, "  ns:          ", ns.as_slice());
        proof { lemma_concat_all_step(parts, 6); }
        let mut nr: Vec<u8> = Vec::new();
        push_decimal(self.nr, &mut nr);
        assert(nr@ =~= spec_decimal(self.nr as nat));
        push_line(&mut out, "  nr:          ", nr.as_slice());
        proof { lemma_concat_all_step(parts, 7); }
        let mut pn: Vec<u8> = Vec::new();
        push_decimal(self.pn, &mut pn);
        assert(pn@ =~= spec_decimal(self.pn as nat));
        push_line(&mut out, "  pn:          ", pn.as_slice());
        proof { lemma_concat_all_step(parts, 8); }
        let mut mk: Vec<u8> = Vec::new();
        push_decimal(self.mk_skipped.len() as u64, &mut mk);
        push_str(&mut mk, " entries");
        assert(mk@ =~= spec_decimal(self.mk_skipped@.len()) + " entries".spec_bytes());
        push_line(&mut out, "  mk_skipped:  ", mk.as_slice());
        proof { lemma_concat_all_step(parts, 9); }
        push_str(&mut out, "}");
        proof {
            lemma_concat_all_step(parts, 10);
            assert(parts.take(11) =~= parts);
        }
        ascii_string(out)
    }
}

/// The skipped keys as (public key, message number, message key).
pub open spec fn skipped_view(v: Seq<SkippedKey>) -> Seq<(Seq<u8>, u64, Seq<u8>)> {
    v.map_values(|e: SkippedKey| (e.0.0.0@, e.0.1, e.1.0@))
}

/// Whether a key for (`pk`, `n`) is stored.
pub open spec fn has_skipped(v: Seq<(Seq<u8>, u64, Seq<u8>)>, pk: Seq<u8>, n: u64) -> bool {
    exists|i: int| 0 <= i < v.len() && (#[trigger] v[i]).0 == pk && v[i].1 == n
}

/// No (public key, message number) is stored twice.
pub open spec fn skipped_unique(v: Seq<(Seq<u8>, u64, Seq<u8>)>) -> bool {
    forall|i: int, j: int| 0 <= i < j < v.len() ==> !((#[trigger] v[i]).0 == (#[trigger] v[j]).0 && v[i].1 == v[j].1)
}

impl StateDHRatchet {
    /// Well-formedness: no skipped key is stored twice.
    pub open spec fn wf(&self) -> bool {
        skipped_unique(skipped_view(self.mk_skipped@))
    }

    /// The initiator's state: a fresh ratchet key pair, the peer's signed
    /// prekey as its ratchet key, and a first root step over their
    /// Diffie-Hellman output. Fails where that output cannot be computed.
    pub fn init_initiator<'a>(sk: RootChainKey, peer_spk_pub: X25519PublicKey) -> (res: Result<Self, &'a str>)
        ensures
            match res {
                Ok(s) => {
                    &&& spec_x25519_derive(peer_spk_pub.0@, s.dhs.private_key.0@) matches Some(dh)
                    &&& s.rk.0@ == spec_kdf_rk_root(sk.0@, dh)
                    &&& s.cks matches Some(ck)
                    &&& ck.0@ == spec_kdf_rk_chain(sk.0@, dh)
                    &&& s.dhs.public_key.0@ == spec_x25519_public(s.dhs.private_key.0@)
                    &&& s.dhr == Some(peer_spk_pub) && s.ckr is None && s.ns == 0 && s.nr == 0 && s.pn == 0
                    &&& s.mk_skipped@.len() == 0
                    &&& s.wf()
                },
                Err(_) => exists|k: Seq<u8>| spec_x25519_derive(peer_spk_pub.0@, k) is None,
            },
    {
        let dhs = gen_curve_key_pair();
        let mut self_ratchet = Self {
            dhs,
            dhr: Some(peer_spk_pub),
            rk: sk,
            cks: None,
            ckr: None,
            ns: 0,
            nr: 0,
            pn: 0,
            mk_skipped: Vec::new(),
        };
        let dh_out = match self_ratchet.make_dh_out(peer_spk_pub) {
            Ok(d) => d,
            Err(e) => return Err(e),
        };
        let (rk, cks) = KdfChain::kdf_rk(self_ratchet.rk, dh_out);
        self_ratchet.rk = rk;
        self_ratchet.cks = Some(cks);
        Ok(self_ratchet)
    }

    /// The responder's state: its signed prekey pair as ratchet key pair,
    /// the shared secret as root key, no chains yet.
    pub fn init_responder(sk: RootChainKey, own_spk_keypair: X25519KeyPair) -> (res: Self)
        ensures
            res.dhs == own_spk_keypair,
            res.dhr is None,
            res.rk == sk,
            res.cks is None,
            res.ckr is None,
            res.ns == 0 && res.nr == 0 && res.pn == 0,
            res.mk_skipped@.len() == 0,
            res.wf(),
    {
        Self {
            dhs: own_spk_keypair,
            dhr: None,
            rk: sk,
            cks: None,
            ckr: None,
            ns: 0,
            nr: 0,
            pn: 0,
            mk_skipped: Vec::new(),
        }
    }

    /// The root key.
    pub fn get_rk(&self) -> (res: &RootChainKey)
        ensures
            *res == self.rk,
    {
        &self.rk
    }

    /// Replaces the sending chain key.
    pub fn set_cks(&mut self, new_cks: Option<ChainKey>)
        ensures
            *final(self) == (StateDHRatchet { cks: new_cks, ..*old(self) }),
    {
        self.cks = new_cks;
    }

    /// Counts one more sent message.
    pub fn add_ns(&mut self)
        requires
            old(self).ns < u64::MAX,
        ensures
            *final(self) == (StateDHRatchet { ns: (old(self).ns + 1) as u64, ..*old(self) }),
    {
        self.ns = self.ns + 1;
    }

    /// Diffie-Hellman of the own ratchet private key with a peer public key.
    pub fn make_dh_out<'a>(&mut self, peer_spk_pub: X25519PublicKey) -> (res: Result<[u8; 32], &'a str>)
        ensures
            *final(self) == *old(self),
            match res {
                Ok(dh) => spec_x25519_derive(peer_spk_pub.0@, old(self).dhs.private_key.0@) == Some(dh@),
                Err(_) => spec_x25519_derive(peer_spk_pub.0@, old(self).dhs.private_key.0@) is None,
            },
    {
        libcrux_ecdh_x25519_derive(peer_spk_pub, self.dhs.private_key)
    }

    /// Approximate memory footprint in bytes.
    pub fn state_size(&self) -> (res: usize)
        requires
            dr_size(*self) <= usize::MAX,
        ensures
            res == dr_size(*self),
    {
        let dhr_size: usize = match self.dhr {
            Some(_) => 32,
            None => 0,
        };
        let cks_size: usize = match self.cks {
            Some(_) => 32,
            None => 0,
        };
        let ckr_size: usize = match self.ckr {
            Some(_) => 32,
            None => 0,
        };
        32 + 32 + 1 + dhr_size + 32 + 1 + cks_size + 1 + ckr_size + 8 + 8 + 8 + 8 + self.mk_skipped.len() * (32 + 8 + 32)
    }
}

} // verus!
