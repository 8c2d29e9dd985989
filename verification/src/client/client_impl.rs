use vstd::prelude::*;
use vstd::string::StringSliceAdditionalSpecFns;
use crate::client::session::{SessionStore, session_copy};
use crate::server::server_impl::{Server, bundle_registered, bundle_fetched, message_registered};
use crate::util::keys::{self, FetchedBundle};
use crate::pqxdh::pqxdh_impl::{
    self, PQXDHState, bundle_usable, fresh_bundle, initial_message_made, public_bundle, same_but_opks,
};
use crate::util::messages::{MessageType, IDUseNameKey, TRHeader, same_message};
use crate::util::helper_func::make_randomness;
use crate::util::user_map::{UserId, clone_id, key_view};
use crate::triple_ratchet::triple_ratchet_impl::{concat_ad_with_tr_header, copy_of, decrypt_rel, encrypt_rel};

verus! {

broadcast use vstd::array::group_array_axioms;

/// A user of the messenger: its name (a chosen name and a byte that tells
/// equal names apart), its PQXDH state and its sessions.
pub struct Client {
    pub name: UserId,
    pub pqxdh_state: PQXDHState,
    pub sessions: SessionStore,
}

/// A random byte to tell equal names apart.
fn gen_name_id() -> [u8; 1] {
    make_randomness::<1>()
}

/// The session with `peer` after a message was read from it: a copy of the
/// old session whose ratchet took the decryption step, with the plaintext
/// appended to its messages.
pub open spec fn message_read(old: SessionStore, new: SessionStore, peer: UserId, header: TRHeader, ct: Seq<u8>, pt: String) -> bool {
    let k = key_view(peer);
    let s0 = old.view()[k];
    let s1 = new.view()[k];
    &&& new.view() == old.view().insert(k, s1)
    &&& exists|c: crate::triple_ratchet::triple_ratchet_impl::TripleRatchetState|
        #[trigger] copy_of(c, s0.state) && decrypt_rel(c, header, ct, s0.ad@, s1.state, Ok::<String, &str>(pt))
    &&& s1.ad == s0.ad
    &&& s1.messages@ == s0.messages@.push((peer, pt))
    &&& s1.received_initial_message == s0.received_initial_message
}

/// The queues with `k`'s emptied, if `k` has one.
pub open spec fn queue_emptied(q: Map<(Seq<char>, u8), Seq<MessageType>>, k: (Seq<char>, u8)) -> Map<(Seq<char>, u8), Seq<MessageType>> {
    if q.contains_key(k) {
        q.insert(k, Seq::empty())
    } else {
        q
    }
}

/// Draining keeps only the messages of others, and hands out only the
/// target's, under the target's name.
proof fn lemma_messages_split(ms: Seq<(UserId, String)>, k: (Seq<char>, u8), name: String)
    requires
        k.0 == name@,
    ensures
        forall|i: int| 0 <= i < messages_not_from(ms, k).len() ==> key_view((#[trigger] messages_not_from(ms, k)[i]).0) != k,
        forall|i: int| 0 <= i < messages_from(ms, k).len() ==> (#[trigger] messages_from(ms, k)[i]).0@ == name@,
    decreases ms.len(),
{
    if ms.len() > 0 {
        lemma_messages_split(ms.drop_last(), k, name);
        let nf = messages_not_from(ms.drop_last(), k);
        let f = messages_from(ms.drop_last(), k);
        if key_view(ms.last().0) == k {
            assert(messages_from(ms, k) == f.push((ms.last().0.0, ms.last().1)));
            assert forall|i: int| 0 <= i < messages_from(ms, k).len() implies (#[trigger] messages_from(ms, k)[i]).0@ == name@ by {
                if i < f.len() {
                    assert(messages_from(ms, k)[i] == f[i]);
                }
            }
        } else {
            assert(messages_not_from(ms, k) == nf.push(ms.last()));
            assert forall|i: int| 0 <= i < messages_not_from(ms, k).len() implies key_view((#[trigger] messages_not_from(ms, k)[i]).0) != k by {
                if i < nf.len() {
                    assert(messages_not_from(ms, k)[i] == nf[i]);
                }
            }
        }
    }
}

/// The messages in `ms` from user `k`, as (sender's name, text).
pub open spec fn messages_from(ms: Seq<(UserId, String)>, k: (Seq<char>, u8)) -> Seq<(String, String)>
    decreases ms.len(),
{
    if ms.len() == 0 {
        Seq::empty()
    } else if key_view(ms.last().0) == k {
        messages_from(ms.drop_last(), k).push((ms.last().0.0, ms.last().1))
    } else {
        messages_from(ms.drop_last(), k)
    }
}

/// The messages in `ms` from anyone but user `k`.
pub open spec fn messages_not_from(ms: Seq<(UserId, String)>, k: (Seq<char>, u8)) -> Seq<(UserId, String)>
    decreases ms.len(),
{
    if ms.len() == 0 {
        Seq::empty()
    } else if key_view(ms.last().0) == k {
        messages_not_from(ms.drop_last(), k)
    } else {
        messages_not_from(ms.drop_last(), k).push(ms.last())
    }
}

/// Nineteen one-time X25519 prekeys uploaded: the counter moves on by
/// nineteen, the new keys join the bundle after the old ones and nothing
/// else of the PQXDH state changes, and their public halves are handed to
/// the server as an upload of the user's.
pub open spec fn opks_uploaded(c0: Client, s0: Server, c1: Client, s1: Server) -> bool {
    &&& c1.name == c0.name
    &&& c1.sessions == c0.sessions
    &&& c1.pqxdh_state.opk_counter == c0.pqxdh_state.opk_counter + 19
    &&& c1.pqxdh_state == (PQXDHState {
        keybundle: keys::UserKeyBundle { opks: c1.pqxdh_state.keybundle.opks, ..c0.pqxdh_state.keybundle },
        opk_counter: c1.pqxdh_state.opk_counter,
        ..c0.pqxdh_state
    })
    &&& exists|opks: Vec<(keys::X25519PublicKey, u32)>, r: Result<(), &'static str>|
        #![trigger message_registered(s0, s1, c0.name, MessageType::UploadOpks { upload_opks_user_id: c0.name, opks }, r)]
    {
        &&& message_registered(s0, s1, c0.name, MessageType::UploadOpks { upload_opks_user_id: c0.name, opks }, r)
        &&& opks@.len() == 19
        &&& pqxdh_impl::added_opks(c1.pqxdh_state.keybundle.opks@, c0.pqxdh_state.keybundle.opks@.len() as int,
            c0.pqxdh_state.opk_counter + 1, opks@)
    }
}

/// Twenty signed one-time ML-KEM prekeys uploaded (`ok`), or none where
/// ML-DSA refused to sign with the identity key: only the ML-KEM one-time
/// prekeys and their counter can change in the PQXDH state; on success the
/// new keys join the bundle after the old ones and the upload is handed to
/// the server, which is left as it was otherwise.
pub open spec fn pq_opks_uploaded(c0: Client, s0: Server, c1: Client, s1: Server, ok: bool) -> bool {
    &&& c1.name == c0.name
    &&& c1.sessions == c0.sessions
    &&& c1.pqxdh_state.keybundle.pq_opks@.take(c0.pqxdh_state.keybundle.pq_opks@.len() as int)
        == c0.pqxdh_state.keybundle.pq_opks@
    &&& c1.pqxdh_state == (PQXDHState {
        keybundle: keys::UserKeyBundle { pq_opks: c1.pqxdh_state.keybundle.pq_opks, ..c0.pqxdh_state.keybundle },
        pq_opk_counter: c1.pqxdh_state.pq_opk_counter,
        ..c0.pqxdh_state
    })
    &&& !ok ==> s1 == s0 && pqxdh_impl::dsa_refuses(c0.pqxdh_state.keybundle.identity.dsa.signing_key.0@,
        pqxdh_impl::pq_opk_context())
    &&& ok ==> c1.pqxdh_state.pq_opk_counter == c0.pqxdh_state.pq_opk_counter + 20
        && exists|pq_opks: Vec<(keys::EncapsulationKey, u32, [u8; keys::MLDSA_65_SIGNATURE_KEY_SIZE])>, r: Result<(), &'static str>|
        #![trigger message_registered(s0, s1, c0.name, MessageType::UploadPQOpks { upload_pqopks_user_id: c0.name, pq_opks }, r)]
    {
        &&& message_registered(s0, s1, c0.name, MessageType::UploadPQOpks { upload_pqopks_user_id: c0.name, pq_opks }, r)
        &&& pq_opks@.len() == 20
        &&& pqxdh_impl::added_pq_opks(c1.pqxdh_state.keybundle.pq_opks@, c0.pqxdh_state.keybundle.pq_opks@.len() as int,
            c0.pqxdh_state.pq_opk_counter + 1, c0.pqxdh_state.keybundle.identity.dsa.signing_key.0@, pq_opks@)
    }
}

/// An initial message answered (`ok` where the responder accepts it): the
/// session with the initiator is started from the responder's side of
/// PQXDH; only the one-time prekeys of the PQXDH state can change, and on
/// failure the sessions stay as they were.
pub open spec fn init_received(
    c0: Client,
    ik_pub: keys::X25519PublicKey,
    ek: keys::X25519PublicKey,
    pq_ct: [u8; keys::ML_KEM_768_CT_SIZE],
    pre_key_ids: Seq<IDUseNameKey>,
    init_ct: [u8; 32],
    init_ct_tag: [u8; 16],
    init_ct_nonce: [u8; 12],
    salt: [u8; 32],
    initiator_id: UserId,
    c1: Client,
    ok: bool,
) -> bool {
    let kb = c0.pqxdh_state.keybundle;
    &&& c1.name == c0.name
    &&& same_but_opks(c0.pqxdh_state, c1.pqxdh_state)
    &&& ok <==> pqxdh_impl::responder_accepts(kb, ik_pub.0@, ek.0@, pq_ct@, pre_key_ids, init_ct@, init_ct_tag@,
        init_ct_nonce@, salt@)
    &&& ok ==> pqxdh_impl::responder_session_made(c0.sessions, c1.sessions, initiator_id,
        pqxdh_impl::responder_sk(kb, ik_pub.0@, ek.0@, pq_ct@, pre_key_ids, salt@), kb.spk.key,
        ik_pub.0@ + kb.identity.dh.public_key.0@)
    &&& !ok ==> c1.sessions == c0.sessions
}

/// The session with `peer` marked as answered (`ok` where there is one);
/// nothing else changes.
pub open spec fn answered(c0: Client, peer: UserId, c1: Client, ok: bool) -> bool {
    let k = key_view(peer);
    let s = c1.sessions.view()[k];
    &&& c1.name == c0.name
    &&& c1.pqxdh_state == c0.pqxdh_state
    &&& ok <==> c0.sessions.view().contains_key(k)
    &&& !ok ==> c1.sessions == c0.sessions
    &&& ok ==> {
        &&& c1.sessions.view() == c0.sessions.view().insert(k, s)
        &&& s.received_initial_message
        &&& copy_of(s.state, c0.sessions.view()[k].state)
        &&& s.ad == c0.sessions.view()[k].ad
        &&& s.messages@ == c0.sessions.view()[k].messages@
    }
}

/// A message from `from` read (`ok`), or refused with nothing changed:
/// refused where there is no session with `from`, the ciphertext is
/// shorter than its tag, ciphertext and authenticated data exceed 2^32 - 1
/// bytes, or the decryption on a copy of the session's ratchet fails.
pub open spec fn message_read_by(c0: Client, from: UserId, payload: (TRHeader, Vec<u8>), c1: Client, ok: bool) -> bool {
    let k = key_view(from);
    let s0 = c0.sessions.view()[k];
    &&& c1.name == c0.name
    &&& c1.pqxdh_state == c0.pqxdh_state
    &&& !ok ==> c1.sessions == c0.sessions && {
        ||| !c0.sessions.view().contains_key(k)
        ||| payload.1@.len() < 32
        ||| crate::triple_ratchet::triple_ratchet_impl::tr_ad(s0.ad@, payload.0.scka_header, payload.0.ec_header).len()
            + payload.1@.len() > 0xffff_ffff
        ||| exists|c: crate::triple_ratchet::triple_ratchet_impl::TripleRatchetState,
            new: crate::triple_ratchet::triple_ratchet_impl::TripleRatchetState, r: Result<String, &'static str>|
            #![trigger copy_of(c, s0.state), decrypt_rel(c, payload.0, payload.1@, s0.ad@, new, r)]
            copy_of(c, s0.state) && decrypt_rel(c, payload.0, payload.1@, s0.ad@, new, r) && r is Err
    }
    &&& ok ==> c0.sessions.view().contains_key(k)
        && exists|pt: String| #[trigger] message_read(c0.sessions, c1.sessions, from, payload.0, payload.1@, pt)
}

/// What handling one fetched message does to the client and the server,
/// and whether handling goes on (`ok`): requests for one-time prekeys are
/// answered with uploads (while the counters last); an initial message is
/// answered and its session marked as answered; a new message is read in
/// its session, marked as answered if it was not, and where there is no
/// session yet, one is started first from the initial message that goes
/// along; uploads are not for users.
pub open spec fn message_handled(c0: Client, s0: Server, m: MessageType, c1: Client, s1: Server, ok: bool) -> bool {
    match m {
        MessageType::MakeOneTimePreKey => if c0.pqxdh_state.opk_counter > u32::MAX - 19 {
            !ok && c1 == c0 && s1 == s0
        } else {
            ok && opks_uploaded(c0, s0, c1, s1)
        },
        MessageType::MakePQOneTimePreKey => if c0.pqxdh_state.pq_opk_counter > u32::MAX - 20 {
            !ok && c1 == c0 && s1 == s0
        } else {
            pq_opks_uploaded(c0, s0, c1, s1, ok)
        },
        MessageType::NewMessage { from, payload, retry_init } => s1 == s0 && if !c0.sessions.view().contains_key(key_view(from)) {
            match retry_init {
                Some(inner) => match *inner {
                    MessageType::InitialMessage {
                        ik_pub, ek, pq_ct, pre_key_ids, init_ct, init_ct_tag, init_ct_nonce, salt, initiator_id, ..
                    } => exists|ca: Client, oka: bool, cb: Client, okb: bool|
                        #![trigger init_received(c0, ik_pub, ek, pq_ct, pre_key_ids@, init_ct, init_ct_tag, init_ct_nonce,
                            salt, initiator_id, ca, oka), answered(ca, from, cb, okb)]
                    {
                        &&& init_received(c0, ik_pub, ek, pq_ct, pre_key_ids@, init_ct, init_ct_tag, init_ct_nonce, salt,
                            initiator_id, ca, oka)
                        &&& answered(ca, from, cb, okb)
                        &&& if okb { message_read_by(cb, from, payload, c1, ok) } else { !ok && c1 == cb }
                    },
                    _ => !ok && c1 == c0,
                },
                None => !ok && c1 == c0,
            }
        } else {
            let was_answered = c0.sessions.view()[key_view(from)].received_initial_message;
            exists|ca: Client, oka: bool| #[trigger] message_read_by(c0, from, payload, ca, oka) && if !oka {
                !ok && c1 == ca
            } else if !was_answered {
                answered(ca, from, c1, ok)
            } else {
                ok && c1 == ca
            }
        },
        MessageType::UploadOpks { .. } => !ok && c1 == c0 && s1 == s0,
        MessageType::UploadPQOpks { .. } => !ok && c1 == c0 && s1 == s0,
        MessageType::InitialMessage {
            ik_pub, ek, pq_ct, pre_key_ids, init_ct, init_ct_tag, init_ct_nonce, salt, initiator_id, ..
        } => s1 == s0 && exists|ca: Client, oka: bool|
            #[trigger] init_received(c0, ik_pub, ek, pq_ct, pre_key_ids@, init_ct, init_ct_tag, init_ct_nonce, salt,
                initiator_id, ca, oka) && answered(ca, initiator_id, c1, ok),
    }
}

/// A run of message handling: the clients and servers before each handled
/// message of `ms` in turn and after the last one, every step going on.
pub open spec fn handled_run(cs: Seq<Client>, ss: Seq<Server>, ms: Seq<MessageType>) -> bool {
    &&& cs.len() == ss.len()
    &&& 1 <= cs.len() <= ms.len() + 1
    &&& forall|i: int| 0 <= i < cs.len() - 1 ==> #[trigger] message_handled(cs[i], ss[i], ms[i], cs[i + 1], ss[i + 1], true)
}

/// The messages the server holds for the user `k`.
pub open spec fn queued_for(q: Map<(Seq<char>, u8), Seq<MessageType>>, k: (Seq<char>, u8)) -> Seq<MessageType> {
    if q.contains_key(k) { q[k] } else { Seq::empty() }
}

/// A session with `target` started from a bundle of theirs (`ok`), or
/// nothing changed where making the initial message fails: the initial
/// message is made (and the session with it), handed to the server for the
/// target, and kept in the session.
pub open spec fn init_sent(c0: Client, s0: Server, fb: FetchedBundle, target: UserId, c1: Client, s1: Server, ok: bool) -> bool {
    &&& c1.name == c0.name
    &&& c1.pqxdh_state == c0.pqxdh_state
    &&& !ok ==> c1 == c0 && s1 == s0 && pqxdh_impl::initial_message_refused(c0.pqxdh_state, fb)
    &&& ok ==> exists|msg: MessageType, mid: SessionStore, sent: MessageType, r: Result<(), &'static str>|
        #![trigger initial_message_made(c0.pqxdh_state, fb, c0.name, target, msg, c0.sessions, mid),
            message_registered(s0, s1, target, sent, r)]
    {
        &&& initial_message_made(c0.pqxdh_state, fb, c0.name, target, msg, c0.sessions, mid)
        &&& same_message(sent, msg)
        &&& message_registered(s0, s1, target, sent, r)
        &&& {
            let k = key_view(target);
            let s = c1.sessions.view()[k];
            &&& c1.sessions.view() == mid.view().insert(k, s)
            &&& copy_of(s.state, mid.view()[k].state)
            &&& s.ad == mid.view()[k].ad
            &&& s.messages@ == mid.view()[k].messages@
            &&& s.received_initial_message == mid.view()[k].received_initial_message
            &&& s.initial_message matches Some(m) && same_message(m, msg)
        }
    }
}

/// A session with `to` to send in: the one there is, or else one started
/// from a bundle of theirs fetched from the server.
pub open spec fn session_ready(c0: Client, s0: Server, to: UserId, c1: Client, s1: Server) -> bool {
    if c0.sessions.view().contains_key(key_view(to)) {
        c1 == c0 && s1 == s0
    } else {
        exists|fb: FetchedBundle, sm: Server|
            #![trigger bundle_fetched(s0, to, sm, Some(fb)), init_sent(c0, sm, fb, to, c1, s1, true)]
            bundle_fetched(s0, to, sm, Some(fb)) && init_sent(c0, sm, fb, to, c1, s1, true)
    }
}

/// A plaintext too long to encrypt: with the 512 bytes of headers and
/// padding it exceeds the 2^32 - 1 bytes the MAC takes (or half the
/// address space).
pub open spec fn too_long_to_send(plaintext: Seq<char>) -> bool {
    vstd::utf8::encode_utf8(plaintext).len() + 512 > u32::MAX
        || vstd::utf8::encode_utf8(plaintext).len() + 512 >= usize::MAX / 2
}

/// The length limit of sending: a plaintext is too long to send only where,
/// with the 512 bytes of headers and padding, its UTF-8 encoding would pass
/// the 2^32 - 1 bytes the MAC takes or half the address space; any shorter
/// one (a 70,000-byte message, say) is never refused for its length, and
/// one past the MAC limit always is.
pub proof fn law_send_length_limit(plaintext: Seq<char>)
    ensures
        vstd::utf8::encode_utf8(plaintext).len() + 512 <= 0xffff_ffff
            && vstd::utf8::encode_utf8(plaintext).len() + 512 < usize::MAX / 2
            ==> !too_long_to_send(plaintext),
        vstd::utf8::encode_utf8(plaintext).len() + 512 > 0xffff_ffff ==> too_long_to_send(plaintext),
{
}

/// Sending in the session with `to` fails: the encryption on a copy of the
/// session's ratchet fails, or the server refuses the message (it holds no
/// queue for `to`, or the uploads it holds cannot be applied).
pub open spec fn send_refused(c_mid: Client, s_mid: Server, to: UserId, plaintext: Seq<char>) -> bool {
    let k = key_view(to);
    let s0 = c_mid.sessions.view()[k];
    ||| exists|c: crate::triple_ratchet::triple_ratchet_impl::TripleRatchetState,
        new: crate::triple_ratchet::triple_ratchet_impl::TripleRatchetState, r: Result<(TRHeader, Vec<u8>), &'static str>|
        #![trigger copy_of(c, s0.state), encrypt_rel(c, plaintext, s0.ad@, new, r)]
        copy_of(c, s0.state) && encrypt_rel(c, plaintext, s0.ad@, new, r) && r is Err
    ||| !s_mid.queues().contains_key(k)
    ||| !crate::server::server_impl::apply_uploads(s_mid.bundles(), s_mid.server_internal_queue@).1
}

/// Fetching and handling the server's messages for the user: the server
/// hands out the user's queue and empties it, and the messages are handled
/// in order (see `message_handled`) until one cannot be; `ok` where all of
/// them were handled.
pub open spec fn fetched_all(c0: Client, s0: Server, c1: Client, s1: Server, ok: bool) -> bool {
    let k = key_view(c0.name);
    let ms = queued_for(s0.queues(), k);
    exists|cs: Seq<Client>, ss: Seq<Server>| #[trigger] handled_run(cs, ss, ms) && {
        &&& cs[0] == c0
        &&& ss[0].bundles() == s0.bundles()
        &&& ss[0].queues() == queue_emptied(s0.queues(), k)
        &&& ss[0].server_internal_queue@ == s0.server_internal_queue@
        &&& if ok {
            &&& cs.len() == ms.len() + 1
            &&& cs.last() == c1
            &&& ss.last() == s1
        } else {
            &&& cs.len() <= ms.len()
            &&& message_handled(cs.last(), ss.last(), ms[cs.len() - 1], c1, s1, false)
        }
    }
}

/// The messages from `target` taken out of the session with them, in
/// order, as (sender's name, text): `out` is `None`, with nothing changed,
/// where there is no such session or it holds no such message.
pub open spec fn drained(c0: Client, target: UserId, c1: Client, out: Option<Seq<(String, String)>>) -> bool {
    let k = key_view(target);
    let s0 = c0.sessions.view()[k];
    let s1 = c1.sessions.view()[k];
    &&& c1.name == c0.name
    &&& c1.pqxdh_state == c0.pqxdh_state
    &&& out is Some <==> c0.sessions.view().contains_key(k) && messages_from(s0.messages@, k).len() > 0
    &&& out is None ==> c1.sessions == c0.sessions
    &&& out matches Some(v) ==> {
        &&& v == messages_from(s0.messages@, k)
        &&& c1.sessions.view() == c0.sessions.view().insert(k, s1)
        &&& s1.messages@ == messages_not_from(s0.messages@, k)
        &&& copy_of(s1.state, s0.state)
        &&& s1.ad == s0.ad
        &&& s1.received_initial_message == s0.received_initial_message
    }
}

/// Handling a message keeps the user's name and the server's queues, and
/// drops no session.
proof fn lemma_handled_keeps(c0: Client, s0: Server, m: MessageType, c1: Client, s1: Server, ok: bool)
    requires
        message_handled(c0, s0, m, c1, s1, ok),
    ensures
        c1.name == c0.name,
        s1.queues() == s0.queues(),
        c0.sessions.view().dom().subset_of(c1.sessions.view().dom()),
{
    match m {
        MessageType::MakePQOneTimePreKey => {
            if c0.pqxdh_state.pq_opk_counter <= u32::MAX - 20 && ok {
                let (pq_opks, r) = choose|pq_opks: Vec<(keys::EncapsulationKey, u32, [u8; keys::MLDSA_65_SIGNATURE_KEY_SIZE])>, r: Result<(), &'static str>|
                    #![trigger message_registered(s0, s1, c0.name, MessageType::UploadPQOpks { upload_pqopks_user_id: c0.name, pq_opks }, r)]
                {
                    &&& message_registered(s0, s1, c0.name, MessageType::UploadPQOpks { upload_pqopks_user_id: c0.name, pq_opks }, r)
                    &&& pq_opks@.len() == 20
                    &&& pqxdh_impl::added_pq_opks(c1.pqxdh_state.keybundle.pq_opks@, c0.pqxdh_state.keybundle.pq_opks@.len() as int,
                        c0.pqxdh_state.pq_opk_counter + 1, c0.pqxdh_state.keybundle.identity.dsa.signing_key.0@, pq_opks@)
                };
            }
        },
        MessageType::MakeOneTimePreKey => {
            if c0.pqxdh_state.opk_counter <= u32::MAX - 19 {
                let (opks, r) = choose|opks: Vec<(keys::X25519PublicKey, u32)>, r: Result<(), &'static str>|
                    #![trigger message_registered(s0, s1, c0.name, MessageType::UploadOpks { upload_opks_user_id: c0.name, opks }, r)]
                {
                    &&& message_registered(s0, s1, c0.name, MessageType::UploadOpks { upload_opks_user_id: c0.name, opks }, r)
                    &&& opks@.len() == 19
                    &&& pqxdh_impl::added_opks(c1.pqxdh_state.keybundle.opks@, c0.pqxdh_state.keybundle.opks@.len() as int,
                        c0.pqxdh_state.opk_counter + 1, opks@)
                };
            }
        },
        _ => {},
    }
}

/// The first message of a session reaches the responder's client: where
/// the responder has no session with the initiator yet and handles a new
/// message from it that carries the initial message the initiator made from
/// a bundle the responder's key bundle offers (or a copy of it), with the
/// initiator's first encryption of `pt` (on a copy of the session it
/// started) as payload, the
/// responder starts the session, marks it answered and keeps `pt` from the
/// initiator as its last message, where X25519 agrees, ML-KEM decapsulation
/// recovers the secret and ChaCha20-Poly1305 ciphertexts open. (The text
/// "empty" stands for the empty message; messages too long to encrypt are
/// refused.)
#[verifier::rlimit(100)]
#[verifier::spinoff_prover]
pub proof fn law_first_message_reaches_client<'a>(
    st: PQXDHState,
    fb: FetchedBundle,
    initiator: UserId,
    responder: UserId,
    init: MessageType,
    carried: MessageType,
    a_old: SessionStore,
    a_new: SessionStore,
    c: crate::triple_ratchet::triple_ratchet_impl::TripleRatchetState,
    pt: &str,
    a1: crate::triple_ratchet::triple_ratchet_impl::TripleRatchetState,
    sres: Result<(TRHeader, Vec<u8>), &'a str>,
    c0: Client,
    s0: Server,
    c1: Client,
    s1: Server,
    ok: bool,
)
    requires
        initial_message_made(st, fb, initiator, responder, init, a_old, a_new),
        same_message(carried, init),
        pqxdh_impl::curve_pair_ok(st.keybundle.identity.dh),
        bundle_usable(fb),
        pqxdh_impl::offered_by(fb, c0.pqxdh_state.keybundle),
        pqxdh_impl::x25519_agrees(),
        pqxdh_impl::aead_opens(),
        !c0.sessions.view().contains_key(key_view(initiator)),
        pt@ != "empty"@,
        vstd::utf8::encode_utf8(pt@).len() + 512 <= u32::MAX,
        copy_of(c, a_new.view()[key_view(responder)].state),
        encrypt_rel(c, pt@, a_new.view()[key_view(responder)].ad@, a1, sres),
        sres matches Ok(payload) ==> message_handled(c0, s0,
            (MessageType::NewMessage { from: initiator, payload, retry_init: Some(Box::new(carried)) }), c1, s1, ok),
    ensures
        sres is Ok,
        ok,
        c1.sessions.view().contains_key(key_view(initiator)),
        c1.sessions.view()[key_view(initiator)].received_initial_message,
        c1.sessions.view()[key_view(initiator)].messages@.last().0 == initiator,
        c1.sessions.view()[key_view(initiator)].messages@.last().1@ == pt@,
{
    let kb = c0.pqxdh_state.keybundle;
    pqxdh_impl::law_pqxdh_agreement(st, fb, initiator, responder, init, a_old, a_new, kb);
    let ik_pub = carried->ik_pub;
    let ek = carried->ek;
    let pq_ct = carried->pq_ct;
    let pre_key_ids = carried->pre_key_ids;
    let init_ct = carried->init_ct;
    let init_ct_tag = carried->init_ct_tag;
    let init_ct_nonce = carried->init_ct_nonce;
    let salt = carried->salt;
    let initiator_id = carried->initiator_id;
    let sk = pqxdh_impl::responder_sk(kb, ik_pub.0@, ek.0@, pq_ct@, pre_key_ids@, salt@);
    let ss_ec = crate::util::expand_pqxdh_keys::spec_expand_pqxdh(sk).subrange(0, 32);
    let ss_scka = crate::util::expand_pqxdh_keys::spec_expand_pqxdh(sk).subrange(32, 64);
    let spk = kb.spk.key;
    let sa = a_new.view()[key_view(responder)];
    assert(fb.spk_pub == spk.public_key);
    crate::triple_ratchet::triple_ratchet_impl::lemma_copy_keeps_fresh(c, sa.state, ss_ec, ss_scka, spk);
    crate::triple_ratchet::triple_ratchet_impl::lemma_first_encrypt(ss_ec, ss_scka, spk.public_key, c, pt@, sa.ad@, a1, sres);
    let payload = sres.unwrap();
    let h = payload.0;
    let ct = payload.1;
    let a_priv = c.ec_state.dhs.private_key.0@;
    assert(crate::util::libcrux_wrap::spec_x25519_derive(pqxdh_impl::spec_x25519_public(a_priv), spk.private_key.0@)
        == crate::util::libcrux_wrap::spec_x25519_derive(pqxdh_impl::spec_x25519_public(spk.private_key.0@), a_priv));
    // the responder answers the initial message and marks the session
    let (ca, oka, cb, okb) = choose|ca: Client, oka: bool, cb: Client, okb: bool|
        #![trigger init_received(c0, ik_pub, ek, pq_ct, pre_key_ids@, init_ct, init_ct_tag, init_ct_nonce,
            salt, initiator_id, ca, oka), answered(ca, initiator, cb, okb)]
    {
        &&& init_received(c0, ik_pub, ek, pq_ct, pre_key_ids@, init_ct, init_ct_tag, init_ct_nonce, salt,
            initiator_id, ca, oka)
        &&& answered(ca, initiator, cb, okb)
        &&& if okb { message_read_by(cb, initiator, payload, c1, ok) } else { !ok && c1 == cb }
    };
    assert(oka);
    let k = key_view(initiator);
    assert(initiator_id == initiator);
    let sb0 = ca.sessions.view()[k];
    assert(okb);
    let sb = cb.sessions.view()[k];
    crate::triple_ratchet::triple_ratchet_impl::lemma_copy_keeps_fresh(sb.state, sb0.state, ss_ec, ss_scka, spk);
    assert(sb.ad@ == sa.ad@);
    // the message is read: no other way of refusing it is left
    assert(ct@.len() >= 32);
    assert(crate::triple_ratchet::triple_ratchet_impl::tr_ad(sb.ad@, h.scka_header, h.ec_header).len() + ct@.len()
        <= 0xffff_ffff) by {
        let sent = crate::triple_ratchet::triple_ratchet_impl::sent_bytes(pt@);
        reveal_strlit("empty");
        vstd::string::is_ascii_spec_bytes("empty");
        assert(sent.len() + 512 <= u32::MAX);
        assert((sent.len() / 16 + 1) * 16 <= sent.len() + 16) by (nonlinear_arith);
    }
    if !ok {
        let (c2, new2, r2) = choose|c2: crate::triple_ratchet::triple_ratchet_impl::TripleRatchetState,
            new2: crate::triple_ratchet::triple_ratchet_impl::TripleRatchetState, r2: Result<String, &'static str>|
            #![trigger copy_of(c2, sb.state), decrypt_rel(c2, h, ct@, sb.ad@, new2, r2)]
            copy_of(c2, sb.state) && decrypt_rel(c2, h, ct@, sb.ad@, new2, r2) && r2 is Err;
        crate::triple_ratchet::triple_ratchet_impl::lemma_copy_keeps_fresh(c2, sb.state, ss_ec, ss_scka, spk);
        crate::triple_ratchet::triple_ratchet_impl::law_first_message_delivered_tr(ss_ec, ss_scka, spk, c, pt,
            sa.ad@, a1, sres, c2, new2, r2);
    }
    let pt2 = choose|pt2: String| #[trigger] message_read(cb.sessions, c1.sessions, initiator, h, ct@, pt2);
    let s1b = c1.sessions.view()[k];
    let c3 = choose|c3: crate::triple_ratchet::triple_ratchet_impl::TripleRatchetState|
        #[trigger] copy_of(c3, sb.state) && decrypt_rel(c3, h, ct@, sb.ad@, s1b.state, Ok::<String, &str>(pt2));
    crate::triple_ratchet::triple_ratchet_impl::lemma_copy_keeps_fresh(c3, sb.state, ss_ec, ss_scka, spk);
    crate::triple_ratchet::triple_ratchet_impl::law_first_message_delivered_tr(ss_ec, ss_scka, spk, c, pt,
        sa.ad@, a1, sres, c3, s1b.state, Ok::<String, &'a str>(pt2));
}

impl Client {
    pub open spec fn wf(&self) -> bool {
        self.sessions.wf()
    }

    /// A new user: a fresh PQXDH state, whose public bundle the server
    /// registers under the user's name, and no sessions. Without `name_id`
    /// a random byte is drawn. Fails, leaving the server as it was, where the
    /// PQXDH state cannot be made.
    pub fn new<'a>(name: &str, name_id: Option<[u8; 1]>, server: &mut Server) -> (res: Result<Self, &'a str>)
        requires
            old(server).wf(),
        ensures
            final(server).wf(),
            match res {
                Ok(c) => {
                    &&& c.wf()
                    &&& c.name.0@ == name@
                    &&& name_id matches Some(i) ==> c.name.1 == i
                    &&& c.sessions.view() == Map::<(Seq<char>, u8), crate::client::session::Session>::empty()
                    &&& fresh_bundle(c.pqxdh_state.keybundle)
                    &&& bundle_registered(*old(server), *final(server), c.name, public_bundle(c.pqxdh_state.keybundle))
                },
                Err(_) => *final(server) == *old(server) && pqxdh_impl::bundle_signing_refused(),
            },
    {
        let name_id = match name_id {
            Some(name_id) => name_id,
            None => gen_name_id(),
        };
        let user_id: UserId = (name.to_string(), name_id);
        let pqxdh_state = match PQXDHState::new() {
            Ok(s) => s,
            Err(e) => return Err(e),
        };
        let pre_key_bundle = pqxdh_impl::setup_pre_key_bundle(&pqxdh_state.keybundle);
        server.register_bundle(clone_id(&user_id), pre_key_bundle);
        let sessions_store = SessionStore::new();
        Ok(Self { name: user_id, pqxdh_state, sessions: sessions_store })
    }

    /// Starts a session with `target_user_id` from a bundle of theirs: the
    /// initial message is made (and the session with it), handed to the
    /// server for the target, and kept in the session so that it goes along
    /// with the messages until the target answers. Fails, changing nothing,
    /// where the initial message cannot be made.
    pub fn initial_message<'a>(&mut self, server: &mut Server, fetched_bundle: &FetchedBundle, target_user_id: &UserId) -> (res: Result<(), &'a str>)
        requires
            old(self).wf(),
            old(server).wf(),
            bundle_usable(*fetched_bundle),
        ensures
            final(self).wf(),
            final(server).wf(),
            init_sent(*old(self), *old(server), *fetched_bundle, *target_user_id, *final(self), *final(server), res is Ok),
    {
        let init_message = match pqxdh_impl::make_initial_message_and_init_session(&self.pqxdh_state, fetched_bundle,
            &self.name, target_user_id, &mut self.sessions) {
            Ok(m) => m,
            Err(e) => return Err(e),
        };
        let ghost mid = self.sessions;
        let sent = init_message.clone();
        let r: Result<(), &'static str> = server.register_message(target_user_id, sent);
        let mut session = match self.sessions.get_session(target_user_id) {
            Ok(session) => session,
            Err(e) => {
                assert(false);
                return Err(e);
            },
        };
        session.initial_message = Some(init_message);
        self.sessions.insert_session(clone_id(target_user_id), session);
        Ok(())
    }

    /// Answers an initial message: the responder's side of PQXDH, which
    /// starts the session with the initiator.
    pub fn receive_init_message<'a>(
        &mut self,
        ik_initiator_pub: keys::X25519PublicKey,
        ek_initiator: keys::X25519PublicKey,
        pq_ct: [u8; keys::ML_KEM_768_CT_SIZE],
        pre_key_ids: Vec<IDUseNameKey>,
        init_ct: [u8; 32],
        init_ct_tag: [u8; 16],
        init_ct_nonce: [u8; 12],
        salt: [u8; 32],
        initiator_id: UserId,
        ad: [u8; 64],
    ) -> (res: Result<(), &'a str>)
        requires
            old(self).wf(),
        ensures
            final(self).wf(),
            init_received(*old(self), ik_initiator_pub, ek_initiator, pq_ct, pre_key_ids@, init_ct, init_ct_tag,
                init_ct_nonce, salt, initiator_id, *final(self), res is Ok),
    {
        pqxdh_impl::handle_receive_init_message_make_session_on_success(&mut self.sessions, &mut self.pqxdh_state,
            ik_initiator_pub, ek_initiator, pq_ct, pre_key_ids, init_ct, init_ct_tag, init_ct_nonce, salt, initiator_id, ad)
    }

    /// Fetches a bundle of `target_user_id`'s from the server.
    pub fn fetch_bundle_from_server<'a>(&mut self, server: &mut Server, target_user_id: UserId) -> (res: Result<FetchedBundle, &'a str>)
        requires
            old(server).wf(),
        ensures
            final(server).wf(),
            *final(self) == *old(self),
            bundle_fetched(*old(server), target_user_id, *final(server), match res {
                Ok(fb) => Some(fb),
                Err(_) => None,
            }),
            res matches Err(e) ==> e@ == "No matching responder ID"@,
    {
        server.fetch_bundle(target_user_id)
    }

    /// Reads one message from `from`: the session's ratchet takes the
    /// decryption step on a copy of the session, which replaces the stored
    /// one only when the message opens. Fails, changing nothing, where there
    /// is no session with `from`, the ciphertext is shorter than its tag or
    /// too long, or the message does not open.
    pub fn handle_new_message<'a>(&mut self, from: UserId, payload: (TRHeader, Vec<u8>)) -> (res: Result<(), &'a str>)
        requires
            old(self).wf(),
        ensures
            final(self).wf(),
            message_read_by(*old(self), from, payload, *final(self), res is Ok),
    {
        let mut session = match self.sessions.get_session(&from) {
            Ok(session) => session,
            Err(e) => return Err(e),
        };
        let (header, ct) = payload;
        if ct.len() < 32 {
            return Err("Ciphertext too short");
        }
        let ad_header = concat_ad_with_tr_header(session.ad, &header.scka_header, &header.ec_header);
        if ct.len() > 0xffff_ffffusize || ad_header.len() > 0xffff_ffffusize - ct.len() {
            return Err("Message too long");
        }
        let ghost s0 = self.sessions.view()[key_view(from)];
        let ghost c0 = session.state;
        let ghost ct_view = ct@;
        let ghost h = header;
        let dres = session.state.tr_decrypt(header, ct, session.ad);
        let plaintext = match dres {
            Ok(plaintext) => plaintext,
            Err(e) => {
                proof {
                    assert(copy_of(c0, s0.state));
                    assert(decrypt_rel(c0, h, ct_view, s0.ad@, session.state, dres));
                }
                return Err(e);
            },
        };
        let ghost pt = plaintext;
        session.messages.push((clone_id(&from), plaintext));
        self.sessions.insert_session(clone_id(&from), session);
        proof {
            assert(copy_of(c0, s0.state));
            assert(message_read(old(self).sessions, self.sessions, from, h, ct_view, pt));
        }
        Ok(())
    }

    /// Sends `plaintext` to `to`: without a session, a bundle of `to`'s is
    /// fetched and the session started first. The triple ratchet encrypts
    /// the message on a copy of the session; until `to` has answered, the
    /// initial message goes along. The plaintext is kept in the session and
    /// the message handed to the server. Fails where no session can be had,
    /// the encryption fails or the server refuses the message.
    #[verifier::rlimit(40)]
    pub fn send_new_message<'a>(&mut self, to: &UserId, plaintext: String, server: &mut Server) -> (res: Result<(), &'a str>)
        requires
            old(self).wf(),
            old(server).wf(),
        ensures
            final(self).wf(),
            final(server).wf(),
            final(self).name == old(self).name,
            res is Ok ==> {
                let k = key_view(*to);
                let s1 = final(self).sessions.view()[k];
                &&& final(self).sessions.view().contains_key(k)
                &&& s1.messages@.last() == (old(self).name, plaintext)
                &&& final(server).queues().contains_key(k)
                &&& final(server).queues()[k].last() matches MessageType::NewMessage { from, payload, .. }
                &&& from == old(self).name
            },
            too_long_to_send(plaintext@) ==> res is Err,
            !old(self).sessions.view().contains_key(key_view(*to)) && !old(server).bundles().contains_key(key_view(*to))
                ==> res is Err && *final(self) == *old(self),
            res is Err ==> {
                let k = key_view(*to);
                ||| too_long_to_send(plaintext@)
                ||| !old(self).sessions.view().contains_key(k) && !old(server).bundles().contains_key(k)
                ||| !old(self).sessions.view().contains_key(k) && exists|fb: FetchedBundle, sm: Server|
                    #[trigger] bundle_fetched(*old(server), *to, sm, Some(fb))
                    && pqxdh_impl::initial_message_refused(old(self).pqxdh_state, fb)
                ||| exists|c_mid: Client, s_mid: Server| #[trigger] session_ready(*old(self), *old(server), *to, c_mid, s_mid)
                    && send_refused(c_mid, s_mid, *to, plaintext@)
            },
            res is Ok ==> exists|c_mid: Client, s_mid: Server, msg: MessageType|
                #![trigger session_ready(*old(self), *old(server), *to, c_mid, s_mid),
                    message_registered(s_mid, *final(server), *to, msg, Ok::<(), &'static str>(()))]
            {
                let k = key_view(*to);
                let s0 = c_mid.sessions.view()[k];
                let s1 = final(self).sessions.view()[k];
                &&& session_ready(*old(self), *old(server), *to, c_mid, s_mid)
                &&& c_mid.sessions.view().contains_key(k)
                &&& final(self).pqxdh_state == c_mid.pqxdh_state
                &&& final(self).sessions.view() == c_mid.sessions.view().insert(k, s1)
                &&& s1.ad == s0.ad
                &&& s1.messages@ == s0.messages@.push((old(self).name, plaintext))
                &&& s1.received_initial_message == s0.received_initial_message
                &&& message_registered(s_mid, *final(server), *to, msg, Ok::<(), &'static str>(()))
                &&& msg matches MessageType::NewMessage { from, payload, retry_init }
                &&& from == old(self).name
                &&& exists|c: crate::triple_ratchet::triple_ratchet_impl::TripleRatchetState|
                    #[trigger] copy_of(c, s0.state) && encrypt_rel(c, plaintext@, s0.ad@, s1.state,
                        Ok::<(TRHeader, Vec<u8>), &str>(payload))
                &&& match retry_init {
                    Some(m) => !s0.received_initial_message && (s0.initial_message matches Some(m0) && same_message(*m, m0)),
                    None => s0.received_initial_message || s0.initial_message is None,
                }
            },
    {
        let mut session = match self.sessions.get_session(to) {
            Ok(session) => session,
            Err(_) => {
                let fetched_bundle = match self.fetch_bundle_from_server(server, clone_id(to)) {
                    Ok(fb) => fb,
                    Err(e) => return Err(e),
                };
                let ghost sm = *server;
                match self.initial_message(server, &fetched_bundle, to) {
                    Ok(()) => {},
                    Err(e) => {
                        proof {
                            assert(bundle_fetched(*old(server), *to, sm, Some(fetched_bundle)));
                        }
                        return Err(e);
                    },
                }
                proof {
                    assert(bundle_fetched(*old(server), *to, sm, Some(fetched_bundle)));
                    assert(init_sent(*old(self), sm, fetched_bundle, *to, *self, *server, true));
                }
                match self.sessions.get_session(to) {
                    Ok(s) => s,
                    Err(e) => {
                        assert(false);
                        return Err(e);
                    },
                }
            },
        };
        let ghost c_mid = *self;
        let ghost s_mid = *server;
        proof {
            assert(session_ready(*old(self), *old(server), *to, c_mid, s_mid));
        }
        let pstr = plaintext.as_str();
        let plen = pstr.as_bytes().len();
        assert(pstr@ == plaintext@);
        if plen > 0xffff_ffffusize - 512 || plen >= usize::MAX / 2 - 512 {
            return Err("Message too long");
        }
        let ghost c0 = session.state;
        let enc = session.state.tr_encrypt(&plaintext, &session.ad);
        let payload = match enc {
            Ok(p) => p,
            Err(e) => {
                proof {
                    assert(copy_of(c0, c_mid.sessions.view()[key_view(*to)].state));
                    assert(encrypt_rel(c0, plaintext@, c_mid.sessions.view()[key_view(*to)].ad@, session.state, enc));
                    assert(send_refused(c_mid, s_mid, *to, plaintext@));
                }
                return Err(e);
            },
        };
        let ghost sent = payload;
        let new_message = if session.get_received_initial_message() {
            MessageType::NewMessage { from: clone_id(&self.name), payload, retry_init: None }
        } else {
            let retry = match &session.initial_message {
                Some(m) => {
                    let c = m.clone();
                    proof {
                        let m0 = c_mid.sessions.view()[key_view(*to)].initial_message.unwrap();
                        crate::util::messages::lemma_same_message_trans(c, *m, m0);
                    }
                    Some(Box::new(c))
                },
                None => None,
            };
            MessageType::NewMessage { from: clone_id(&self.name), payload, retry_init: retry }
        };
        let ghost msg = new_message;
        session.messages.push((clone_id(&self.name), plaintext));
        self.sessions.insert_session(clone_id(to), session);
        match server.register_message(to, new_message) {
            Ok(()) => {
                proof {
                    assert(msg matches MessageType::NewMessage { from, payload, .. } && payload == sent);
                    if old(self).sessions.view().contains_key(key_view(*to)) {
                        assert(copy_of(c0, old(self).sessions.view()[key_view(*to)].state));
                    }
                    assert(copy_of(c0, c_mid.sessions.view()[key_view(*to)].state));
                    assert(message_registered(s_mid, *server, *to, msg, Ok::<(), &'static str>(())));
                }
                Ok(())
            },
            Err(e) => {
                proof {
                    assert(send_refused(c_mid, s_mid, *to, plaintext@));
                }
                Err(e)
            },
        }
    }

    /// Generates nineteen one-time X25519 prekeys and uploads their public
    /// halves to the server.
    pub fn add_20_opk_and_send(&mut self, server: &mut Server)
        requires
            old(self).wf(),
            old(server).wf(),
            old(self).pqxdh_state.opk_counter + 19 <= u32::MAX,
        ensures
            final(self).wf(),
            final(server).wf(),
            opks_uploaded(*old(self), *old(server), *final(self), *final(server)),
    {
        let new_opks = self.pqxdh_state.add_20_opk();
        let message_to_register = MessageType::UploadOpks { upload_opks_user_id: clone_id(&self.name), opks: new_opks };
        let _registered: Result<(), &'static str> = server.register_message(&self.name, message_to_register);
    }

    /// Generates twenty signed one-time ML-KEM prekeys and uploads their
    /// public halves with their signatures to the server. Fails, uploading
    /// nothing, where a signature cannot be made.
    pub fn add_20_pqs_opk_and_send<'a>(&mut self, server: &mut Server) -> (res: Result<(), &'a str>)
        requires
            old(self).wf(),
            old(server).wf(),
            old(self).pqxdh_state.pq_opk_counter + 20 <= u32::MAX,
        ensures
            final(self).wf(),
            final(server).wf(),
            pq_opks_uploaded(*old(self), *old(server), *final(self), *final(server), res is Ok),
    {
        let new_pq_opks = match self.pqxdh_state.add_20_pqs_opk() {
            Ok(v) => v,
            Err(e) => return Err(e),
        };
        let message_to_register = MessageType::UploadPQOpks { upload_pqopks_user_id: clone_id(&self.name), pq_opks: new_pq_opks };
        let _registered: Result<(), &'static str> = server.register_message(&self.name, message_to_register);
        Ok(())
    }

    /// Marks the session with `peer` as answered by the peer.
    fn mark_answered<'a>(&mut self, peer: &UserId) -> (res: Result<(), &'a str>)
        requires
            old(self).wf(),
        ensures
            final(self).wf(),
            answered(*old(self), *peer, *final(self), res is Ok),
    {
        let mut session = match self.sessions.get_session(peer) {
            Ok(session) => session,
            Err(e) => return Err(e),
        };
        session.set_received_initial_message(true);
        self.sessions.insert_session(clone_id(peer), session);
        Ok(())
    }

    /// Handles one message fetched from the server: a request for one-time
    /// prekeys is answered with an upload, an initial message starts a
    /// session (marked as answered), and a new message is read; a new
    /// message without a session starts one from the initial message that
    /// goes along with it. Fails on a message that cannot be handled.
    fn handle_fetched_message<'a>(&mut self, server: &mut Server, message: MessageType) -> (res: Result<(), &'a str>)
        requires
            old(self).wf(),
            old(server).wf(),
        ensures
            final(self).wf(),
            final(server).wf(),
            message_handled(*old(self), *old(server), message, *final(self), *final(server), res is Ok),
    {
        match message {
            MessageType::MakeOneTimePreKey => {
                if self.pqxdh_state.opk_counter > u32::MAX - 19 {
                    return Err("No more one-time prekey numbers");
                }
                self.add_20_opk_and_send(server);
                Ok(())
            },
            MessageType::MakePQOneTimePreKey => {
                if self.pqxdh_state.pq_opk_counter > u32::MAX - 20 {
                    return Err("No more ML-KEM one-time prekey numbers");
                }
                self.add_20_pqs_opk_and_send(server)
            },
            MessageType::NewMessage { from, payload, retry_init } => {
                if !self.sessions.sessions.contains_key(&from) {
                    match retry_init {
                        Some(inner_msg) => {
                            match *inner_msg {
                                MessageType::InitialMessage {
                                    ik_pub, ek, pq_ct, pre_key_ids, init_ct, init_ct_tag, init_ct_nonce, salt, initiator_id, ad,
                                } => {
                                    let _ = self.receive_init_message(ik_pub, ek, pq_ct, pre_key_ids, init_ct, init_ct_tag,
                                        init_ct_nonce, salt, initiator_id, ad);
                                    match self.mark_answered(&from) {
                                        Ok(()) => {},
                                        Err(e) => return Err(e),
                                    }
                                    self.handle_new_message(from, payload)
                                },
                                _ => Err("retry_init is not an InitialMessage"),
                            }
                        },
                        None => Err("NewMessage arrived with no session and no retry_init"),
                    }
                } else {
                    let answered = match self.sessions.get_session(&from) {
                        Ok(session) => session.received_initial_message,
                        Err(e) => return Err(e),
                    };
                    match self.handle_new_message(clone_id(&from), payload) {
                        Ok(()) => {},
                        Err(e) => return Err(e),
                    }
                    if !answered {
                        self.mark_answered(&from)
                    } else {
                        Ok(())
                    }
                }
            },
            MessageType::UploadOpks { .. } => Err("User can't receive a UploadOpks message"),
            MessageType::UploadPQOpks { .. } => Err("User can't receive a UploadPqOpks message"),
            MessageType::InitialMessage {
                ik_pub, ek, pq_ct, pre_key_ids, init_ct, init_ct_tag, init_ct_nonce, salt, initiator_id, ad,
            } => {
                let _ = self.receive_init_message(ik_pub, ek, pq_ct, pre_key_ids, init_ct, init_ct_tag, init_ct_nonce,
                    salt, clone_id(&initiator_id), ad);
                self.mark_answered(&initiator_id)
            },
        }
    }

    /// Works off the messages the server holds for this user, in order (see
    /// `message_handled`), and stops at the first message that cannot be
    /// handled. Succeeds where every message was handled.
    pub fn fetch_message_from_server<'a>(&mut self, server: &mut Server) -> (res: Result<(), &'a str>)
        requires
            old(self).wf(),
            old(server).wf(),
        ensures
            final(self).wf(),
            final(server).wf(),
            final(self).name == old(self).name,
            final(server).queues() == queue_emptied(old(server).queues(), key_view(old(self).name)),
            old(self).sessions.view().dom().subset_of(final(self).sessions.view().dom()),
            fetched_all(*old(self), *old(server), *final(self), *final(server), res is Ok),
    {
        let mut message_queue = server.user_fetch_messages(clone_id(&self.name));
        let ghost k = key_view(old(self).name);
        let ghost all = message_queue@;
        let ghost mut cs: Seq<Client> = seq![*self];
        let ghost mut ss: Seq<Server> = seq![*server];
        proof {
            assert(server.queues() =~= queue_emptied(old(server).queues(), k));
            assert(all == queued_for(old(server).queues(), k));
            assert(message_queue@ =~= all.skip(0));
        }
        while message_queue.len() > 0
            invariant
                self.wf(),
                server.wf(),
                handled_run(cs, ss, all),
                cs[0] == *old(self),
                ss[0].bundles() == old(server).bundles(),
                ss[0].queues() == queue_emptied(old(server).queues(), k),
                ss[0].server_internal_queue@ == old(server).server_internal_queue@,
                cs.last() == *self,
                ss.last() == *server,
                self.name == old(self).name,
                server.queues() == queue_emptied(old(server).queues(), k),
                old(self).sessions.view().dom().subset_of(self.sessions.view().dom()),
                message_queue@ == all.skip(cs.len() - 1),
                all == queued_for(old(server).queues(), k),
                k == key_view(old(self).name),
            decreases message_queue@.len(),
        {
            let ghost c_i = *self;
            let ghost s_i = *server;
            let message = message_queue.remove(0);
            proof {
                assert(message == all[cs.len() - 1]);
                assert(message_queue@ =~= all.skip(cs.len() as int));
            }
            let handled = self.handle_fetched_message(server, message);
            proof {
                lemma_handled_keeps(c_i, s_i, message, *self, *server, handled is Ok);
            }
            match handled {
                Ok(()) => {},
                Err(e) => return Err(e),
            }
            proof {
                let cs0 = cs;
                let ss0 = ss;
                cs = cs.push(*self);
                ss = ss.push(*server);
                assert forall|i: int| 0 <= i < cs.len() - 1 implies
                    #[trigger] message_handled(cs[i], ss[i], all[i], cs[i + 1], ss[i + 1], true) by {
                    if i < cs0.len() - 1 {
                        assert(message_handled(cs0[i], ss0[i], all[i], cs0[i + 1], ss0[i + 1], true));
                    }
                }
            }
        }
        Ok(())
    }

    /// Takes the messages from `target_user_id` out of the session with
    /// them, in order, as (sender's name, text). Fails, changing nothing,
    /// where there is no such session or it holds no such message.
    pub fn drain_messages_from<'a>(&mut self, target_user_id: &UserId) -> (res: Result<Vec<(String, String)>, &'a str>)
        requires
            old(self).wf(),
        ensures
            final(self).wf(),
            final(self).name == old(self).name,
            drained(*old(self), *target_user_id, *final(self), match res {
                Ok(v) => Some(v@),
                Err(_) => None,
            }),
    {
        let mut session = match self.sessions.get_session(target_user_id) {
            Ok(session) => session,
            Err(e) => return Err(e),
        };
        let ghost k = key_view(*target_user_id);
        let ghost ms = session.messages@;
        let mut matched_messages: Vec<(String, String)> = Vec::new();
        let mut kept: Vec<(UserId, String)> = Vec::new();
        let mut i: usize = 0;
        while i < session.messages.len()
            invariant
                i <= session.messages@.len(),
                ms == session.messages@,
                k == key_view(*target_user_id),
                matched_messages@ == messages_from(ms.take(i as int), k),
                kept@ == messages_not_from(ms.take(i as int), k),
            decreases session.messages@.len() - i,
        {
            let message = &session.messages[i];
            proof {
                assert(ms.take(i + 1).drop_last() =~= ms.take(i as int));
            }
            proof {
                assert(ms.take(i + 1).last() == ms[i as int]);
            }
            let same_byte = message.0.1[0] == target_user_id.1[0];
            let same_name = message.0.0 == target_user_id.0;
            if same_byte && same_name {
                assert(key_view(ms[i as int].0) == k);
                matched_messages.push((message.0.0.clone(), message.1.clone()));
                assert(matched_messages@ =~= messages_from(ms.take(i + 1), k));
            } else {
                assert(key_view(ms[i as int].0) != k);
                kept.push((clone_id(&message.0), message.1.clone()));
                assert(kept@ =~= messages_not_from(ms.take(i + 1), k));
            }
            i = i + 1;
        }
        proof {
            assert(ms.take(ms.len() as int) =~= ms);
        }
        if matched_messages.len() == 0 {
            return Err("No messages found for this user");
        }
        session.messages = kept;
        self.sessions.insert_session(clone_id(target_user_id), session);
        Ok(matched_messages)
    }

    /// Works off the messages the server holds for this user, then takes
    /// the messages from `target_user_id` out of the session with them.
    pub fn receive(&mut self, server: &mut Server, target_user_id: &UserId) -> (res: Result<Vec<(String, String)>, String>)
        requires
            old(self).wf(),
            old(server).wf(),
        ensures
            final(self).wf(),
            final(server).wf(),
            final(self).name == old(self).name,
            res is Ok ==> final(server).queues() == queue_emptied(old(server).queues(), key_view(old(self).name)),
            res matches Ok(v) ==> {
                let k = key_view(*target_user_id);
                let s1 = final(self).sessions.view()[k];
                &&& v@.len() > 0
                &&& forall|i: int| 0 <= i < v@.len() ==> (#[trigger] v@[i]).0@ == target_user_id.0@
                &&& final(self).sessions.view().contains_key(k)
                &&& forall|i: int| 0 <= i < s1.messages@.len() ==> key_view((#[trigger] s1.messages@[i]).0) != k
            },
            exists|mid: Client, ok: bool| #[trigger] fetched_all(*old(self), *old(server), mid, *final(server), ok) && if ok {
                drained(mid, *target_user_id, *final(self), match res {
                    Ok(v) => Some(v@),
                    Err(_) => None,
                })
            } else {
                res is Err && *final(self) == mid
            },
    {
        let fetched = self.fetch_message_from_server(server);
        match fetched {
            Ok(()) => {},
            Err(e) => return Err(e.to_string()),
        }
        let ghost mid = self.sessions;
        proof {
            let k = key_view(*target_user_id);
            lemma_messages_split(mid.view()[k].messages@, k, target_user_id.0);
        }
        match self.drain_messages_from(target_user_id) {
            Ok(v) => Ok(v),
            Err(e) => Err(e.to_string()),
        }
    }
}

} // verus!
