use hacss::client::client_impl::Client;
use hacss::client::session::SessionStore;
use hacss::double_ratchet::messages_ratchet::{ratchet_receive_key, ratchet_send_key};
use hacss::double_ratchet::ratchet_state::StateDHRatchet;
use hacss::ml_kem_braid::ml_kem_braid_impl::MlKemBraid;
use hacss::pqxdh::pqxdh_impl::{self, PQXDHState};
use hacss::server::server_impl::Server;
use hacss::spqr::spqr_impl::SPQRState;
use hacss::triple_ratchet::triple_ratchet_impl::TripleRatchetState;
use hacss::util::keys::{RootChainKey, X25519KeyPair, X25519PrivateKey, X25519PublicKey};
use hacss::util::messages::{IDUseNameKey, MessageType};
use hacss::util::user_map::UserMap;

fn two_clients(server: &mut Server) -> (Client, Client) {
    let alice = Client::new("Alice", Some([1u8; 1]), server).unwrap();
    let bob = Client::new("Bob", Some([2u8; 1]), server).unwrap();
    (alice, bob)
}

// Key agreement: after the responder reads the initial message, both
// sessions start from the same secret and the same associated data.
#[test]
fn pqxdh_both_sides_share_session_secret() {
    let mut server = Server::new();
    let (mut alice, mut bob) = two_clients(&mut server);
    let fb = alice.fetch_bundle_from_server(&mut server, bob.name.clone()).unwrap();
    alice.initial_message(&mut server, &fb, &bob.name).unwrap();
    bob.fetch_message_from_server(&mut server).unwrap();

    let a = alice.sessions.get_session(&bob.name).unwrap();
    let b = bob.sessions.get_session(&alice.name).unwrap();
    assert_eq!(a.ad, b.ad);
    assert_eq!(a.state.spqr_state.rk, b.state.spqr_state.rk);
    assert!(b.received_initial_message);
    assert!(!a.received_initial_message);
}

// The responder takes the X25519 one-time prekey it used out of its bundle.
#[test]
fn responder_removes_used_one_time_prekey() {
    let mut server = Server::new();
    let (mut alice, mut bob) = two_clients(&mut server);
    let before = bob.pqxdh_state.keybundle.opks.len();
    let fb = alice.fetch_bundle_from_server(&mut server, bob.name.clone()).unwrap();
    let (_pk, used_id) = fb.opk.unwrap();
    alice.initial_message(&mut server, &fb, &bob.name).unwrap();
    bob.fetch_message_from_server(&mut server).unwrap();
    assert_eq!(bob.pqxdh_state.keybundle.opks.len(), before - 1);
    assert!(bob.pqxdh_state.keybundle.opks.iter().all(|o| o.id != used_id));
}

// An initial message naming an ML-KEM one-time prekey the responder does
// not hold is refused and starts no session.
#[test]
fn responder_refuses_unknown_pq_prekey() {
    let mut server = Server::new();
    let (alice, mut bob) = two_clients(&mut server);
    let res = bob.receive_init_message(
        alice.pqxdh_state.keybundle.identity.dh.public_key,
        alice.pqxdh_state.keybundle.identity.dh.public_key,
        [0u8; 1088],
        vec![IDUseNameKey::PQOPK { pqopk_id: 4000 }],
        [0u8; 32],
        [0u8; 16],
        [0u8; 12],
        [0u8; 32],
        alice.name.clone(),
        [0u8; 64],
    );
    assert!(res.is_err());
    assert!(bob.sessions.get_session(&alice.name).is_err());
}

// The sparse ratchets of both parties start in step.
#[test]
fn spqr_initial_chains_agree() {
    let ss = [9u8; 32];
    let a = SPQRState::ratchet_init_initiator(&ss);
    let b = SPQRState::ratchet_init_responder(&ss);
    let ac = a.kdfchains.get(&0).unwrap();
    let bc = b.kdfchains.get(&0).unwrap();
    assert_eq!(ac.sending.unwrap().kdf_key, bc.receiving.unwrap().kdf_key);
    assert_eq!(ac.receiving.unwrap().kdf_key, bc.sending.unwrap().kdf_key);
    assert_eq!(a.rk, b.rk);
}

// The responder's first receiving chain gives the initiator's first
// sending key.
#[test]
fn double_ratchet_first_keys_agree() {
    let sk = RootChainKey([5u8; 32]);
    let spk = pqxdh_impl::gen_curve_key_pair();
    let mut alice = StateDHRatchet::init_initiator(sk, spk.public_key).unwrap();
    let mut bob = StateDHRatchet::init_responder(sk, X25519KeyPair { private_key: spk.private_key, public_key: spk.public_key });
    let header = hacss::util::messages::ECHeader { dh_pub: alice.dhs.public_key, pn: alice.pn, n: alice.ns };
    let (mk_a, n) = ratchet_send_key(&mut alice).unwrap();
    assert_eq!(n, 0);
    let mk_b = ratchet_receive_key(&mut bob, &header).unwrap();
    assert_eq!(mk_a.0, mk_b.0);
}

// Delivery: a message for a registered user comes out of its next fetch.
#[test]
fn server_delivers_registered_message_last() {
    let mut server = Server::new();
    let (alice, bob) = two_clients(&mut server);
    server.register_message(&bob.name, MessageType::MakeOneTimePreKey).unwrap();
    server.register_message(&bob.name, MessageType::MakePQOneTimePreKey).unwrap();
    let msgs = server.user_fetch_messages(bob.name.clone());
    assert_eq!(msgs.len(), 2);
    assert!(matches!(msgs[1], MessageType::MakePQOneTimePreKey));
    assert_eq!(server.user_fetch_messages(bob.name.clone()).len(), 0);
    assert_eq!(server.user_fetch_messages(alice.name.clone()).len(), 0);
}

// A message for an unregistered user is refused.
#[test]
fn server_refuses_message_for_unknown_user() {
    let mut server = Server::new();
    let eve = ("Eve".to_string(), [0u8; 1]);
    assert!(server.register_message(&eve, MessageType::MakeOneTimePreKey).is_err());
}

// An upload for an unregistered user stays queued and makes the server refuse.
#[test]
fn server_keeps_upload_that_cannot_apply() {
    let mut server = Server::new();
    let eve = ("Eve".to_string(), [0u8; 1]);
    let res = server.register_message(&eve, MessageType::UploadOpks { upload_opks_user_id: eve.clone(), opks: vec![] });
    assert!(res.is_err());
    assert_eq!(server.server_internal_queue.len(), 1);
}

// Each one-time prekey is handed out once.
#[test]
fn one_time_prekeys_handed_out_once() {
    let mut server = Server::new();
    let (mut alice, bob) = two_clients(&mut server);
    let fb1 = alice.fetch_bundle_from_server(&mut server, bob.name.clone()).unwrap();
    let fb2 = alice.fetch_bundle_from_server(&mut server, bob.name.clone()).unwrap();
    assert_ne!(fb1.opk.unwrap().1, fb2.opk.unwrap().1);
    assert_ne!(fb1.pq_opk.unwrap().1, fb2.pq_opk.unwrap().1);
    // the last ones of the bundle come first
    assert_eq!(fb1.opk.unwrap().1, 19);
    assert_eq!(fb2.opk.unwrap().1, 18);
}

// Once the one-time prekeys run out, the signed ML-KEM prekey stands in and
// the owner is asked for more.
#[test]
fn exhausted_bundle_falls_back_and_asks_for_more() {
    let mut server = Server::new();
    let (mut alice, bob) = two_clients(&mut server);
    for _ in 0..20 {
        alice.fetch_bundle_from_server(&mut server, bob.name.clone()).unwrap();
    }
    let fb = alice.fetch_bundle_from_server(&mut server, bob.name.clone()).unwrap();
    assert!(fb.pq_opk.is_none());
    assert!(fb.opk.is_none());
    assert_eq!(fb.pqspk_id, Some(bob.pqxdh_state.keybundle.pqspk.id));
    let msgs = server.user_fetch_messages(bob.name.clone());
    assert_eq!(msgs.len(), 2);
    assert!(matches!(msgs[0], MessageType::MakePQOneTimePreKey));
    assert!(matches!(msgs[1], MessageType::MakeOneTimePreKey));
}

#[test]
fn braid_state_describe() {
    let alice = MlKemBraid::init_initiator(&[1u8; 32]);
    let bob = MlKemBraid::init_responder(&[1u8; 32]);
    assert_eq!(alice.state.describe(), "KeysUnsampled(epoch=1)");
    assert_eq!(bob.state.describe(), "NoHeaderReceived(epoch=1)");
}

#[test]
fn prekey_id_describe() {
    assert_eq!(IDUseNameKey::OPK { opk_id: 7 }.describe(), "OPK(7)");
    assert_eq!(IDUseNameKey::PQOPK { pqopk_id: 123 }.describe(), "PQOPK(123)");
    assert_eq!(IDUseNameKey::PQSPK { pqspk_id: 0 }.describe(), "PQSPK(0)");
    assert_eq!(IDUseNameKey::SPK { spk_id: 4294967295 }.describe(), "SPK(4294967295)");
}

// Sizes: epoch, authenticator with its MAC key.
#[test]
fn braid_state_size_fresh() {
    let alice = MlKemBraid::init_initiator(&[1u8; 32]);
    assert_eq!(alice.state.state_size(), 8 + 33 + 32);
}

// Sizes: root key, epoch, one epoch of chains, no skipped keys, the
// direction and the braid.
#[test]
fn spqr_state_size_fresh() {
    let a = SPQRState::ratchet_init_initiator(&[1u8; 32]);
    assert_eq!(a.state_size(), 32 + 8 + (8 + 90) + 8 + 1 + 73);
}

#[test]
fn double_ratchet_state_size_fresh() {
    let spk = pqxdh_impl::gen_curve_key_pair();
    let alice = StateDHRatchet::init_initiator(RootChainKey([3u8; 32]), spk.public_key).unwrap();
    // key pair, peer key, root key, sending chain, no receiving chain, counters
    assert_eq!(alice.state_size(), 64 + 1 + 32 + 32 + 1 + 32 + 1 + 0 + 24 + 8);
    let bob = StateDHRatchet::init_responder(RootChainKey([3u8; 32]), spk);
    assert_eq!(bob.state_size(), 64 + 1 + 32 + 1 + 1 + 24 + 8);
}

#[test]
fn triple_ratchet_state_size_is_sum() {
    let spk = pqxdh_impl::gen_curve_key_pair();
    let st = TripleRatchetState::rathet_init_initiator_tr([1u8; 32], [2u8; 32], spk.public_key).unwrap();
    assert_eq!(st.state_size(), st.ec_state.state_size() + st.spqr_state.state_size());
}

#[test]
fn session_size_counts_ratchets_and_fields() {
    let mut server = Server::new();
    let (mut alice, bob) = two_clients(&mut server);
    let fb = alice.fetch_bundle_from_server(&mut server, bob.name.clone()).unwrap();
    alice.initial_message(&mut server, &fb, &bob.name).unwrap();
    let s = alice.sessions.get_session(&bob.name).unwrap();
    let msg_size = std::mem::size_of_val(s.initial_message.as_ref().unwrap());
    assert_eq!(s.session_size(), s.state.state_size() + 66 + msg_size);
}

// A copy of a session holds the same messages and ratchet.
#[test]
fn session_copy_keeps_contents() {
    let mut server = Server::new();
    let (mut alice, mut bob) = two_clients(&mut server);
    alice.send_new_message(&bob.name, "one".to_string(), &mut server).unwrap();
    bob.fetch_message_from_server(&mut server).unwrap();
    let s = bob.sessions.get_session(&alice.name).unwrap();
    let c = s.clone();
    assert_eq!(c.messages, s.messages);
    assert_eq!(c.ad, s.ad);
    assert_eq!(c.state.ec_state.rk, s.state.ec_state.rk);
    assert_eq!(c.state.ec_state.nr, s.state.ec_state.nr);
    assert_eq!(c.state.spqr_state.epoch, s.state.spqr_state.epoch);
}

// Draining: only the target's messages leave the session.
#[test]
fn drain_only_takes_target_messages() {
    let mut server = Server::new();
    let (mut alice, mut bob) = two_clients(&mut server);
    alice.send_new_message(&bob.name, "hi".to_string(), &mut server).unwrap();
    bob.fetch_message_from_server(&mut server).unwrap();
    bob.send_new_message(&alice.name, "hello".to_string(), &mut server).unwrap();
    let got = bob.drain_messages_from(&alice.name).unwrap();
    assert_eq!(got, vec![("Alice".to_string(), "hi".to_string())]);
    let s = bob.sessions.get_session(&alice.name).unwrap();
    assert_eq!(s.messages.len(), 1);
    assert_eq!(s.messages[0].1, "hello");
    assert!(bob.drain_messages_from(&alice.name).is_err());
    let carol = ("Carol".to_string(), [3u8; 1]);
    assert!(bob.drain_messages_from(&carol).is_err());
}

// A message without a session and without the initial message is refused.
#[test]
fn new_message_without_session_is_refused() {
    let mut server = Server::new();
    let (mut alice, mut bob) = two_clients(&mut server);
    alice.send_new_message(&bob.name, "first".to_string(), &mut server).unwrap();
    // drop the initial message: only the new message (with retry) stays
    let mut msgs = server.user_fetch_messages(bob.name.clone());
    let last = msgs.pop().unwrap();
    let stripped = match last {
        MessageType::NewMessage { from, payload, .. } => MessageType::NewMessage { from, payload, retry_init: None },
        other => other,
    };
    server.register_message(&bob.name, stripped).unwrap();
    assert!(bob.fetch_message_from_server(&mut server).is_err());
}

// A too short ciphertext is refused without touching the session.
#[test]
fn short_ciphertext_is_refused() {
    let mut server = Server::new();
    let (mut alice, mut bob) = two_clients(&mut server);
    alice.send_new_message(&bob.name, "first".to_string(), &mut server).unwrap();
    bob.fetch_message_from_server(&mut server).unwrap();
    alice.send_new_message(&bob.name, "second".to_string(), &mut server).unwrap();
    let mut msgs = server.user_fetch_messages(bob.name.clone());
    let last = msgs.pop().unwrap();
    let (from, header) = match last {
        MessageType::NewMessage { from, payload, .. } => (from, payload.0),
        _ => panic!("expected a new message"),
    };
    let before = bob.sessions.get_session(&alice.name).unwrap().state.ec_state.nr;
    assert!(bob.handle_new_message(from, (header, vec![0u8; 8])).is_err());
    assert_eq!(bob.sessions.get_session(&alice.name).unwrap().state.ec_state.nr, before);
}

#[test]
fn user_map_insert_get_remove() {
    let mut m: UserMap<u32> = UserMap::new();
    let a = ("a".to_string(), [0u8; 1]);
    let a2 = ("a".to_string(), [1u8; 1]);
    m.insert(a.clone(), 1);
    m.insert(a2.clone(), 2);
    m.insert(a.clone(), 3);
    assert_eq!(m.get(&a), Some(&3));
    assert_eq!(m.get(&a2), Some(&2));
    assert_eq!(m.entries.len(), 2);
    assert_eq!(m.remove(&a), Some(3));
    assert_eq!(m.get(&a), None);
    assert_eq!(m.remove(&a), None);
}

#[test]
fn session_store_starts_empty() {
    let store = SessionStore::new();
    assert!(store.get_session(&("x".to_string(), [0u8; 1])).is_err());
}

#[test]
fn pqxdh_counters_advance() {
    let mut st = PQXDHState::new().unwrap();
    let before = st.opk_counter;
    let v = st.add_20_opk();
    assert_eq!(v.len(), 19);
    assert_eq!(v[0].1, before + 1);
    assert_eq!(v[18].1, before + 19);
    assert_eq!(st.opk_counter, before + 19);
    assert_eq!(st.keybundle.opks.len(), 20 + 19);
}

#[test]
fn message_describe() {
    assert_eq!(MessageType::MakeOneTimePreKey.describe(), "MakeOneTimePreKey");
    assert_eq!(MessageType::MakePQOneTimePreKey.describe(), "MakePQOneTimePreKey");
    let id = ("Alice".to_string(), [1u8; 1]);
    let m = MessageType::UploadOpks { upload_opks_user_id: id.clone(), opks: vec![] };
    assert_eq!(m.describe(), "UploadOpks { user_id: (\"Alice\", [1]), count: 0 }");
}

#[test]
fn ratchet_describe() {
    let kp = X25519KeyPair { private_key: X25519PrivateKey([1u8; 32]), public_key: X25519PublicKey([2u8; 32]) };
    let st = StateDHRatchet::init_responder(RootChainKey([3u8; 32]), kp);
    let expected = format!(
        "StateDHRatchet {{\n  dhs.public:  {:?}\n  dhr:         {:?}\n  rk:          {:?}\n  cks:         None\n  ckr:         None\n  ns:          0\n  nr:          0\n  pn:          0\n  mk_skipped:  0 entries\n}}",
        st.dhs.public_key, st.dhr, st.rk
    );
    assert_eq!(st.describe(), expected);
}


// Messages on one chain arrive in order: each key the sender sends under is
// the key the receiver gets for its header.
#[test]
fn double_ratchet_chain_stays_in_step() {
    let sk = RootChainKey([6u8; 32]);
    let spk = pqxdh_impl::gen_curve_key_pair();
    let mut alice = StateDHRatchet::init_initiator(sk, spk.public_key).unwrap();
    let mut bob = StateDHRatchet::init_responder(sk, X25519KeyPair { private_key: spk.private_key, public_key: spk.public_key });
    for i in 0..5u64 {
        let header = hacss::util::messages::ECHeader { dh_pub: alice.dhs.public_key, pn: alice.pn, n: alice.ns };
        let (mk_a, n) = ratchet_send_key(&mut alice).unwrap();
        assert_eq!(n, i);
        let mk_b = ratchet_receive_key(&mut bob, &header).unwrap();
        assert_eq!(mk_a.0, mk_b.0);
        assert_eq!(bob.nr, alice.ns);
    }
}

// The first triple ratchet message arrives as sent, the empty message too;
// the text "empty" stands for the empty message and arrives as it.
#[test]
fn triple_ratchet_first_message_delivered() {
    for (sent, expected) in [("first words", "first words"), ("", ""), ("empty", "")] {
        let ss_ec = [3u8; 32];
        let ss_scka = [4u8; 32];
        let spk = pqxdh_impl::gen_curve_key_pair();
        let mut alice = TripleRatchetState::rathet_init_initiator_tr(ss_ec, ss_scka, spk.public_key).unwrap();
        let mut bob = TripleRatchetState::rathet_init_responder_tr(ss_ec, ss_scka, spk);
        let ad = [7u8; 64];
        let (h, ct) = alice.tr_encrypt(&sent.to_string(), &ad).unwrap();
        let got = bob.tr_decrypt(h, ct, ad).unwrap();
        assert_eq!(got, expected);
    }
}

// A conversation in turns: each reply opens a new chain after a
// Diffie-Hellman step, and every key sent under is the key received.
#[test]
fn double_ratchet_ping_pong_keys_agree() {
    let sk = RootChainKey([8u8; 32]);
    let spk = pqxdh_impl::gen_curve_key_pair();
    let mut alice = StateDHRatchet::init_initiator(sk, spk.public_key).unwrap();
    let mut bob = StateDHRatchet::init_responder(sk, X25519KeyPair { private_key: spk.private_key, public_key: spk.public_key });
    for round in 0..4 {
        let (sender, receiver) = if round % 2 == 0 { (&mut alice, &mut bob) } else { (&mut bob, &mut alice) };
        for _ in 0..3 {
            let header = hacss::util::messages::ECHeader { dh_pub: sender.dhs.public_key, pn: sender.pn, n: sender.ns };
            let (mk_s, _) = ratchet_send_key(sender).unwrap();
            let mk_r = ratchet_receive_key(receiver, &header).unwrap();
            assert_eq!(mk_s.0, mk_r.0);
        }
    }
}

// Late messages open with the keys they were sent under: the last of three
// messages arrives first, then the two earlier ones.
#[test]
fn double_ratchet_late_messages_use_stored_keys() {
    let sk = RootChainKey([9u8; 32]);
    let spk = pqxdh_impl::gen_curve_key_pair();
    let mut alice = StateDHRatchet::init_initiator(sk, spk.public_key).unwrap();
    let mut bob = StateDHRatchet::init_responder(sk, X25519KeyPair { private_key: spk.private_key, public_key: spk.public_key });
    // the first message sets up Bob's receiving chain
    let h0 = hacss::util::messages::ECHeader { dh_pub: alice.dhs.public_key, pn: alice.pn, n: alice.ns };
    let (k0, _) = ratchet_send_key(&mut alice).unwrap();
    assert_eq!(ratchet_receive_key(&mut bob, &h0).unwrap().0, k0.0);
    let mut sent = Vec::new();
    for _ in 0..3 {
        let h = hacss::util::messages::ECHeader { dh_pub: alice.dhs.public_key, pn: alice.pn, n: alice.ns };
        let (k, _) = ratchet_send_key(&mut alice).unwrap();
        sent.push((h, k));
    }
    for idx in [2usize, 0, 1] {
        let (h, k) = &sent[idx];
        assert_eq!(ratchet_receive_key(&mut bob, h).unwrap().0, k.0);
    }
    assert!(bob.mk_skipped.is_empty());
}

// Quiet sends report the epoch before the braid's own and no new key: the
// initiator's braid sends its whole header so.
#[test]
fn braid_quiet_sends_report_previous_epoch() {
    let mut braid = MlKemBraid::init_initiator(&[5u8; 32]);
    for _ in 0..4 {
        let (msg, (epoch, key)) = braid.send().unwrap();
        assert_eq!(msg.epoch, 1);
        assert_eq!(epoch, 0);
        assert!(key.is_none());
    }
}

// The header gets through in three messages: the responder's braid then
// holds the initiator's encapsulation key seed and hash.
#[test]
fn braid_header_delivered_in_three_messages() {
    let ss = [6u8; 32];
    let mut alice = MlKemBraid::init_initiator(&ss);
    let mut bob = MlKemBraid::init_responder(&ss);
    for _ in 0..3 {
        let (msg, _) = alice.send().unwrap();
        let (epoch, key) = bob.receive(msg).unwrap();
        assert_eq!(epoch, 0);
        assert!(key.is_none());
    }
    match (&alice.state, &bob.state) {
        (
            hacss::ml_kem_braid::ml_kem_braid_impl::BraidState::KeysSampled { ks_ek_seed, ks_hek, .. },
            hacss::ml_kem_braid::ml_kem_braid_impl::BraidState::HeaderReceived { hr_epoch, hr_ek_seed, hr_hek, .. },
        ) => {
            assert_eq!(*hr_epoch, 1);
            assert_eq!(hr_ek_seed, ks_ek_seed);
            assert_eq!(hr_hek, ks_hek);
        },
        _ => panic!("the header did not get through"),
    }
}
