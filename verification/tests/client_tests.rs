use hacss::server::server_impl::Server;
use hacss::client::client_impl::Client;
use hacss::pqxdh::pqxdh_impl;
use hacss::util::keys::{self, FetchedBundle};
use hacss::util::libcrux_wrap::{libcrux_aead_encrypts_ad_initial_message};
use zeroize::Zeroize;
use hacss::util::messages::MessageType;
use hacss::client::session::Session;
use hacss::util::expand_pqxdh_keys::expand_pqxdh_sk;
#[test]
fn setup () {
    let mut server = Server::new();
    let _ = Client::new("Alice", None, &mut server).unwrap();
    let _ = Client::new("Bob", None, &mut server).unwrap();
}


#[test]
fn fetch_key_bundle(){
    let mut server = Server::new();
    // The prekey is uploaded when a new pqxdh_state is made
    let mut alice = Client::new("Alice", None, &mut server).unwrap();
    let bob = Client::new("Bob", None, &mut server).unwrap();
    // Alice fetches Bob's key bundle
    let bob_pk_bundle = alice.fetch_bundle_from_server(&mut server, bob.name);
    assert_eq!(bob_pk_bundle.expect("Should fetch the bundle").ik_dh_pub, bob.pqxdh_state.keybundle.identity.dh.public_key, "Identity Key doesn't match");
}
#[test]
fn verify_keys_from_bundle(){
    let mut server = Server::new();
    
    // The prekey is uploaded when a new pqxdh_state is made
    let mut alice = Client::new("Alice", None, &mut server).unwrap();
    let bob = Client::new("Bob", None, &mut server).unwrap();
    // Alice fetches Bob's key bundle
    let bob_pk_bundle = alice.fetch_bundle_from_server(&mut server, bob.name);
    
    // Alice verifies Bob signature
    assert_eq!(pqxdh_impl::verify_pre_keys(&bob_pk_bundle.expect("Should fetch the bundle")), Ok(()));
}

#[test]
fn cannot_verify_keys_from_bundle(){
    let mut server = Server::new();
    
    // The prekey is uploaded when a new pqxdh_state is made
    let mut alice = Client::new("Alice", None,  &mut server).unwrap();
    let bob = Client::new("Bob", None, &mut server).unwrap();
    // Alice fetches Bob's key bundle
    let mut bob_pk_bundle = alice.fetch_bundle_from_server(&mut server, bob.name).expect("Should fetch the bundle");

    // Changes one of the signatures to mess up
    let pqopk = alice.pqxdh_state.keybundle.pq_opks.last().expect("Can't find the key in Alice's bundle");
    bob_pk_bundle.pq_opk = Some((pqopk.key.public_key.clone(), pqopk.id, pqopk.sig));


    
    // Alice verifies Bob signature
    assert_ne!(pqxdh_impl::verify_pre_keys(&bob_pk_bundle), Ok(()));
}

/*Make test for last resort (empty pqopk) */
#[test]
fn verifying_last_resort_key(){
    let mut server = Server::new();
    
    // The prekey is uploaded when a new pqxdh_state is made
    let mut alice = Client::new("Alice", None, &mut server).unwrap();
    let bob = Client::new("Bob", None, &mut server).unwrap();


    // Alice fetches Bob's key bundle
    let mut bob_pk_bundle = alice.fetch_bundle_from_server(&mut server, bob.name).expect("Should fetch the bundle");
    
    // Empties the pq opk, such that the verifying will be on the last resort key
    bob_pk_bundle.pq_opk = None;

    bob_pk_bundle.pqspk_id = Some(bob.pqxdh_state.keybundle.pqspk.id);
    bob_pk_bundle.pqspk_pub = Some(bob.pqxdh_state.keybundle.pqspk.key.public_key);      
    

    assert_eq!(pqxdh_impl::verify_pre_keys(&bob_pk_bundle), Ok(()))

}

/*Make test for last resort (empty pqopk) */
#[test]
fn emptying_opk_verifying_for_last_resort(){
    let mut server = Server::new();
    
    // The prekey is uploaded when a new pqxdh_state is made
    let mut alice = Client::new("Alice", None, &mut server).unwrap();
    let bob = Client::new("Bob", None, &mut server).unwrap();

    let mut bob_pk_bundle: FetchedBundle = alice.fetch_bundle_from_server(&mut server, bob.name.clone())
        .expect("Should fetch the bundle");
    // Alice fetches Bob's key bundle 20 times
    // Empties the pq opk, such that the verifying will be on the last resort key
    
    for _ in 0..20{
        bob_pk_bundle = alice.fetch_bundle_from_server(&mut server, bob.name.clone())
            .expect("Should fetch the bundle");
    }

    let pqspk_pub = bob_pk_bundle.pqspk_pub.clone()
        .expect("This should work when emptying");

    assert_eq!(pqxdh_impl::verify_pre_keys(&bob_pk_bundle), Ok(()));
    assert_eq!(pqspk_pub.0, bob.pqxdh_state.keybundle.pqspk.key.public_key.0);
}

/*Make test for last resort (empty pqopk) */
#[test]
fn emptying_opk_verifying_for_last_resort_after_multiple_fetches(){
    let mut server = Server::new();
    
    // The prekey is uploaded when a new pqxdh_state is made
    let mut alice = Client::new("Alice", None, &mut server).unwrap();
    let bob = Client::new("Bob", None, &mut server).unwrap();

    let mut bob_pk_bundle:Result<FetchedBundle, &str>   = alice.fetch_bundle_from_server(&mut server, bob.name.clone());
    // Alice fetches Bob's key bundle 20 times
    // Empties the pq opk, such that the verifying will be on the last resort key
    for _ in 0..40{
        bob_pk_bundle = alice.fetch_bundle_from_server(&mut server, bob.name.clone());
    }
    let bob_pk_bundle = bob_pk_bundle.expect("Should fetch the bundle");
    let pqspk_pub = bob_pk_bundle.pqspk_pub.clone().expect("This should work when emptying and multiple fetches");

    assert_eq!(pqxdh_impl::verify_pre_keys(&bob_pk_bundle), Ok(()));
    assert_eq!(pqspk_pub.0, bob.pqxdh_state.keybundle.pqspk.key.public_key.0);
}

#[test]
fn checks_two_sk(){
    let mut server = Server::new();
            
    let mut alice = Client::new("Alice", None, &mut server).unwrap();
    let mut bob = Client::new("Bob", None, &mut server).unwrap();

    let fetched_bundle = alice.fetch_bundle_from_server(&mut server, bob.name.clone());
    let fetched_bundle = fetched_bundle.expect("Should fetch the bundle");


    let (salt, mut concat_dh_final_alice, ek_alice, mut ct_alice, id_pk_alice) = pqxdh_impl::
            initiator_create_salt_concat_dh(&alice.pqxdh_state, &fetched_bundle)
                .expect("Couldn't make salt or concatted dh");
    let alice_sk = pqxdh_impl::create_sk(salt, concat_dh_final_alice, b"HACSS_CURVE25519_SHA256_ML-KEM-768");

    let mut ek_private_bytes: [u8; 32] = ek_alice.private_key.0;
    ek_private_bytes.zeroize();
    concat_dh_final_alice.zeroize();
    
    let mut ad = [0u8; 64];
    ad[0..32].copy_from_slice(alice.pqxdh_state.keybundle.identity.dh.public_key.0.as_ref());
    ad[32..64].copy_from_slice(fetched_bundle.ik_dh_pub.0.as_ref());

    let (mut init_ct, mut init_ct_tag, init_ct_nonce) = libcrux_aead_encrypts_ad_initial_message(&alice_sk, &ad, b"Initial for our post-PQXDH KL,AM")
        .expect("Could not make the initial ciphertext for the initial message");

    let init_message = MessageType::InitialMessage {
        ik_pub: alice.pqxdh_state.keybundle.identity.dh.public_key, 
        ek: ek_alice.public_key, 
        pq_ct: ct_alice, 
        pre_key_ids: id_pk_alice, 
        init_ct,
        init_ct_tag,
        init_ct_nonce,
        salt,
        initiator_id: alice.name.clone(),
        ad
    };

    let _ = server.register_message(&bob.name, init_message);

    ct_alice.zeroize();
    init_ct.zeroize();
    init_ct_tag.zeroize();

    // Use the SPK (not IK) to match what Session::new_initiator does internally
    let spk_pub_target = fetched_bundle.spk_pub;
    Session::new_initiator(
        &bob.name, 
        keys::RootChainKey(alice_sk), 
        spk_pub_target,   // ← was ik_pub_target, now correctly spk_pub
        &mut alice.sessions, 
        ad
    );
    
    // Bob fetches and processes the initial message
    bob.fetch_message_from_server(&mut server)
        .expect("Bob couldn't collect the initial message from Alice");

    let bob_side_session = bob.sessions
        .get_session(&alice.name)
        .expect("Could not find the session between Alice and Bob");

    // Both sides expand the same SK — compare the raw SK before expansion, 
    // not the EC ratchet's rk (which is already the expanded ec_sk portion)
    let (alice_ec_sk, _) = expand_pqxdh_sk(alice_sk);
    let bob_ec_sk = bob_side_session.state.ec_state.get_rk();

    assert_eq!(bob_ec_sk.0, alice_ec_sk);
}


#[test]
fn can_send_a_message_between_two_pqxdh_states(){
    let mut server = Server::new();
            
    let mut alice = Client::new("Alice", Some([1u8; 1]), &mut server).unwrap();
    let mut bob = Client::new("Bob", Some([2u8; 1]), &mut server).unwrap();

    
    let bob_fetched_bundle = alice.fetch_bundle_from_server(&mut server, bob.name.clone()).expect("Should fetch the bundle");
    
    let _ = alice.initial_message(&mut server, &bob_fetched_bundle, &bob.name);
    
    let _ = alice.send_new_message(&bob.name, "Hey, Bob (from Alice)".to_string(), &mut server);
    
    let _ = bob.fetch_message_from_server(&mut server);

    let _ = bob.send_new_message(&alice.name, "Hey, Alice".to_string(), &mut server);

    let _ = alice.fetch_message_from_server(&mut server);

    let mut alice_session = match alice.sessions.get_session(&bob.name) {
        Ok(a_session) => a_session,
        Err(_) => panic!()
    };
    let _bob_session = bob.sessions.get_session(&alice.name).expect("Should get the session between Bob and Alice");
    
    assert_eq!(alice_session.messages.len(), 2);

    let message_one = alice_session.messages.pop().expect("Should have the message: Hey, Alice").1;        

    assert_eq!(message_one, "Hey, Alice".to_string());

    let message_two = alice_session.messages.pop().expect("Should have the message: Hey, Bob (from Alice)").1;        

    assert_eq!(message_two, "Hey, Bob (from Alice)".to_string());

    assert_eq!(alice_session.messages.len(), 0);
}    

#[test]
fn bob_can_receive_message_from_alice() {
    let mut server = Server::new();
    let mut alice = Client::new("Alice", Some([1u8; 1]), &mut server).unwrap();
    let mut bob = Client::new("Bob", Some([2u8; 1]), &mut server).unwrap();

    let bundle = alice.fetch_bundle_from_server(&mut server, bob.name.clone()).expect("Should fetch the bundle");
    alice.initial_message(&mut server, &bundle, &bob.name).unwrap();
    alice.send_new_message(&bob.name, "Hey Bob".to_string(), &mut server).unwrap();

    bob.fetch_message_from_server(&mut server).unwrap();

    let session = bob.sessions.get_session(&alice.name).unwrap();
    let msg = session.messages.last().unwrap().1.clone();
    assert_eq!(msg, "Hey Bob".to_string());
}

#[test]
fn alice_can_receive_message_from_bob() {
    let mut server = Server::new();
    let mut alice = Client::new("Alice", Some([1u8; 1]), &mut server).unwrap();
    let mut bob = Client::new("Bob", Some([2u8; 1]), &mut server).unwrap();

    let bundle = alice.fetch_bundle_from_server(&mut server, bob.name.clone()).expect("Should fetch the bundle");
    alice.initial_message(&mut server, &bundle, &bob.name).unwrap();
    alice.send_new_message(&bob.name, "Hey Bob".to_string(), &mut server).unwrap();
    bob.fetch_message_from_server(&mut server).unwrap();

    bob.send_new_message(&alice.name, "Hey Alice".to_string(), &mut server).unwrap();
    alice.fetch_message_from_server(&mut server).unwrap();

    let session = alice.sessions.get_session(&bob.name).unwrap();
    let msg = session.messages.last().unwrap().1.clone();
    assert_eq!(msg, "Hey Alice".to_string());
}

#[test]
fn multiple_messages_are_stored_in_order() {
    let mut server = Server::new();
    let mut alice = Client::new("Alice", Some([1u8; 1]), &mut server).unwrap();
    let mut bob = Client::new("Bob", Some([2u8; 1]), &mut server).unwrap();

    let bundle = alice.fetch_bundle_from_server(&mut server, bob.name.clone()).expect("Should fetch the bundle");
    alice.initial_message(&mut server, &bundle, &bob.name).unwrap();
    alice.send_new_message(&bob.name, "Message 1".to_string(), &mut server).unwrap();
    alice.send_new_message(&bob.name, "Message 2".to_string(), &mut server).unwrap();
    alice.send_new_message(&bob.name, "Message 3".to_string(), &mut server).unwrap();

    bob.fetch_message_from_server(&mut server).unwrap();

    let session = bob.sessions.get_session(&alice.name).unwrap();
    assert_eq!(session.messages.len(), 3);
    assert_eq!(session.messages[0].1, "Message 1");
    assert_eq!(session.messages[1].1, "Message 2");
    assert_eq!(session.messages[2].1, "Message 3");
}

#[test]
fn session_exists_after_initial_message() {
    let mut server = Server::new();
    let mut alice = Client::new("Alice", Some([1u8; 1]), &mut server).unwrap();
    let mut bob = Client::new("Bob", Some([2u8; 1]), &mut server).unwrap();

    let bundle = alice.fetch_bundle_from_server(&mut server, bob.name.clone()).expect("Should fetch the bundle");
    alice.initial_message(&mut server, &bundle, &bob.name).unwrap();

    // Alice has a session with Bob immediately after initial_message
    assert!(alice.sessions.get_session(&bob.name).is_ok());

    // Bob gets a session only after fetching
    //assert!(bob.sessions.get_session(&alice.name).is_err());
    bob.fetch_message_from_server(&mut server).unwrap();
    assert!(bob.sessions.get_session(&alice.name).is_ok());
}

#[test]
fn session_does_not_exists_after_before_initial_message() {
    let mut server = Server::new();
    let mut alice = Client::new("Alice", Some([1u8; 1]), &mut server).unwrap();
    let bob = Client::new("Bob", Some([2u8; 1]),  &mut server).unwrap();

    alice.send_new_message(&bob.name, "First message to send today, good morning".to_string(), &mut server)
        .expect("Should send new message");

    // Alice has a session with Bob immediately after initial_message
    assert!(alice.sessions.get_session(&bob.name).is_ok());

    // Bob gets a session only after fetching
    assert!(bob.sessions.get_session(&alice.name).is_err());
}

#[test]
fn ratchet_advances_after_send() {
    let mut server = Server::new();
    let mut alice = Client::new("Alice", Some([1u8; 1]),  &mut server).unwrap();
    let bob = Client::new("Bob", Some([2u8; 1]),  &mut server).unwrap();

    let bundle = alice.fetch_bundle_from_server(&mut server, bob.name.clone()).expect("Should fetch the bundle");
    alice.initial_message(&mut server, &bundle, &bob.name).unwrap();

    let ns_before = alice.sessions.get_session(&bob.name).unwrap().state.ec_state.ns;
    alice.send_new_message(&bob.name, "Hello".to_string(), &mut server).unwrap();
    let ns_after = alice.sessions.get_session(&bob.name).unwrap().state.ec_state.ns;

    assert_eq!(ns_after, ns_before + 1);
}

#[test]
fn sending_empty_string_works() {
    let mut server = Server::new();
    let mut alice = Client::new("Alice", Some([1u8; 1]),  &mut server).unwrap();
    let mut bob = Client::new("Bob", Some([2u8; 1]),  &mut server).unwrap();

    let bundle = alice.fetch_bundle_from_server(&mut server, bob.name.clone()).expect("Should fetch the bundle");
    alice.initial_message(&mut server, &bundle, &bob.name).unwrap();
    alice.send_new_message(&bob.name, "".to_string(), &mut server).unwrap();

    bob.fetch_message_from_server(&mut server).unwrap();

    let session = bob.sessions.get_session(&alice.name).unwrap();
    let msg = session.messages.last().unwrap().1.clone();
    assert_eq!(msg, "".to_string());
}



#[test]
fn extended_conversation_alice_and_bob() {
    let mut server = Server::new();
    let mut alice = Client::new("Alice", Some([1u8; 1]),  &mut server).unwrap();
    let mut bob = Client::new("Bob", Some([2u8; 1]),  &mut server).unwrap();

    let bundle = alice.fetch_bundle_from_server(&mut server, bob.name.clone()).expect("Should fetch the bundle");
    alice.initial_message(&mut server, &bundle, &bob.name).unwrap();

    // Round 1: Alice sends 3, Bob receives
    alice.send_new_message(&bob.name, "A1".to_string(), &mut server).unwrap();
    alice.send_new_message(&bob.name, "A2".to_string(), &mut server).unwrap();
    alice.send_new_message(&bob.name, "A3".to_string(), &mut server).unwrap();
    bob.fetch_message_from_server(&mut server).unwrap();

    let bob_session = bob.sessions.get_session(&alice.name).unwrap();
    assert_eq!(bob_session.messages.len(), 3);
    assert_eq!(bob_session.messages[0].1, "A1");
    assert_eq!(bob_session.messages[1].1, "A2");
    assert_eq!(bob_session.messages[2].1, "A3");

    // Round 2: Bob replies 3, Alice receives
    bob.send_new_message(&alice.name, "B1".to_string(), &mut server).unwrap();
    bob.send_new_message(&alice.name, "B2".to_string(), &mut server).unwrap();
    bob.send_new_message(&alice.name, "B3".to_string(), &mut server).unwrap();
    alice.fetch_message_from_server(&mut server).unwrap();

    let alice_session = alice.sessions.get_session(&bob.name).unwrap();
    assert_eq!(alice_session.messages[3].1, "B1");
    assert_eq!(alice_session.messages[4].1, "B2");
    assert_eq!(alice_session.messages[5].1, "B3");

    // Round 3: Alice replies, Bob receives — ratchet has stepped again
    alice.send_new_message(&bob.name, "A4".to_string(), &mut server).unwrap();
    bob.fetch_message_from_server(&mut server).unwrap();
    let bob_session = bob.sessions.get_session(&alice.name).unwrap();
    assert_eq!(bob_session.messages.last().unwrap().1, "A4");

    // Round 4: Bob replies, Alice receives — full 4-way ratchet cycle complete
    bob.send_new_message(&alice.name, "B4".to_string(), &mut server).unwrap();
    alice.fetch_message_from_server(&mut server).unwrap();
    let alice_session = alice.sessions.get_session(&bob.name).unwrap();
    assert_eq!(alice_session.messages.last().unwrap().1, "B4");
}

#[test]
fn ratchet_state_advances_correctly_over_multiple_sends() {
    let mut server = Server::new();
    let mut alice = Client::new("Alice", Some([1u8; 1]),  &mut server).unwrap();
    let mut bob = Client::new("Bob", Some([2u8; 1]),  &mut server).unwrap();

    let bundle = alice.fetch_bundle_from_server(&mut server, bob.name.clone()).expect("Should fetch the bundle");
    alice.initial_message(&mut server, &bundle, &bob.name).unwrap();

    // Send 10 messages and verify ns advances correctly each time
    for i in 1..=10 {
        let ns_before = alice.sessions.get_session(&bob.name).unwrap().state.ec_state.ns;
        alice.send_new_message(&bob.name, format!("msg {}", i), &mut server).unwrap();
        let ns_after = alice.sessions.get_session(&bob.name).unwrap().state.ec_state.ns;
        assert_eq!(ns_after, ns_before + 1, "ns should advance by 1 after each send");
    }

    // Bob receives all 10
    bob.fetch_message_from_server(&mut server).unwrap();
    let bob_session = bob.sessions.get_session(&alice.name).unwrap();
    assert_eq!(bob_session.messages.len(), 10);
    for i in 1..=10 {
        assert_eq!(bob_session.messages[i - 1].1, format!("msg {}", i));
    }
}

#[test]
fn messages_with_special_characters_and_long_content() {
    let mut server = Server::new();
    let mut alice = Client::new("Alice", Some([1u8; 1]),  &mut server).unwrap();
    let mut bob = Client::new("Bob", Some([2u8; 1]),  &mut server).unwrap();

    let bundle = alice.fetch_bundle_from_server(&mut server, bob.name.clone()).expect("Should fetch the bundle");
    alice.initial_message(&mut server, &bundle, &bob.name).unwrap();

    let messages = vec![
        "".to_string(),                                          // empty
        "Hello, World!".to_string(),                            // basic ASCII
        "こんにちは世界".to_string(),                             // Japanese
        "!@#$%^&*()_+-=[]{}|;':\",./<>?".to_string(),          // special chars
        "a".repeat(10_000),                                     // long message
    ];

    for msg in &messages {
        alice.send_new_message(&bob.name, msg.clone(), &mut server).unwrap();
    }

    bob.fetch_message_from_server(&mut server).unwrap();
    let session = bob.sessions.get_session(&alice.name).unwrap();

    assert_eq!(session.messages.len(), messages.len());
    for (i, expected) in messages.iter().enumerate() {
        assert_eq!(&session.messages[i].1, expected, "Message {} did not match", i);
    }
}

#[test]
fn alternating_send_receive_ratchets_correctly() {
    let mut server = Server::new();
    let mut alice = Client::new("Alice", Some([1u8; 1]),  &mut server).unwrap();
    let mut bob = Client::new("Bob", Some([2u8; 1]),  &mut server).unwrap();

    let bundle = alice.fetch_bundle_from_server(&mut server, bob.name.clone()).expect("Should fetch the bundle");
    alice.initial_message(&mut server, &bundle, &bob.name).unwrap();

    // Strictly alternating: Alice → Bob → Alice → Bob, 5 rounds
    for i in 1..=5 {
        let alice_msg = format!("Alice round {}", i);
        let bob_msg = format!("Bob round {}", i);

        alice.send_new_message(&bob.name, alice_msg.clone(), &mut server).unwrap();
        bob.fetch_message_from_server(&mut server).unwrap();
        assert_eq!(
            bob.sessions.get_session(&alice.name).unwrap().messages.last().unwrap().1,
            alice_msg
        );

        bob.send_new_message(&alice.name, bob_msg.clone(), &mut server).unwrap();
        alice.fetch_message_from_server(&mut server).unwrap();
        assert_eq!(
            alice.sessions.get_session(&bob.name).unwrap().messages.last().unwrap().1,
            bob_msg
        );
    }

    // After 5 full rounds, verify ratchet has stepped: nr and ns should reflect history
    let alice_session = alice.sessions.get_session(&bob.name).unwrap();
    let bob_session = bob.sessions.get_session(&alice.name).unwrap();

    // Each side sent 5 messages total
    assert_eq!(alice_session.messages.len(), 10); // 5 sent + 5 received
    assert_eq!(bob_session.messages.len(), 10);
}

#[test]
fn three_pqxdh_states_no_cross_interference() {
    let mut server = Server::new();
    let mut alice = Client::new("Alice", Some([1u8; 1]),  &mut server).unwrap();
    let mut bob = Client::new("Bob", Some([2u8; 1]),  &mut server).unwrap();
    let mut charlie = Client::new("Charlie", Some([3u8; 1]),  &mut server).unwrap();

    // Alice → Bob session
    let bob_bundle = alice.fetch_bundle_from_server(&mut server, bob.name.clone()).expect("Should fetch the bundle");
    alice.initial_message(&mut server, &bob_bundle, &bob.name).unwrap();

    // Alice → Charlie session
    let charlie_bundle = alice.fetch_bundle_from_server(&mut server, charlie.name.clone()).expect("Should fetch the bundle");
    alice.initial_message(&mut server, &charlie_bundle, &charlie.name).unwrap();

    alice.send_new_message(&bob.name, "Hey Bob, secret".to_string(), &mut server).unwrap();
    alice.send_new_message(&charlie.name, "Hey Charlie, secret".to_string(), &mut server).unwrap();

    bob.fetch_message_from_server(&mut server).unwrap();
    charlie.fetch_message_from_server(&mut server).unwrap();

    // Bob got Alice's message to Bob, not Charlie's
    let bob_session = bob.sessions.get_session(&alice.name).unwrap();
    assert_eq!(bob_session.messages.len(), 1);
    assert_eq!(bob_session.messages[0].1, "Hey Bob, secret");

    // Charlie got Alice's message to Charlie, not Bob's
    let charlie_session = charlie.sessions.get_session(&alice.name).unwrap();
    assert_eq!(charlie_session.messages.len(), 1);
    assert_eq!(charlie_session.messages[0].1, "Hey Charlie, secret");
}

#[test]
fn three_pqxdh_states_no_cross_interference_should_panic() {
    let mut server = Server::new();
    let mut alice = Client::new("Alice", Some([1u8; 1]),  &mut server).unwrap();
    let mut bob = Client::new("Bob", Some([2u8; 1]),  &mut server).unwrap();
    let mut charlie = Client::new("Charlie", Some([3u8; 1]),  &mut server).unwrap();

    // Alice → Bob session
    let bob_bundle = alice.fetch_bundle_from_server(&mut server, bob.name.clone()).expect("Should fetch the bundle");
    alice.initial_message(&mut server, &bob_bundle, &bob.name).unwrap();

    // Alice → Charlie session
    let charlie_bundle = alice.fetch_bundle_from_server(&mut server, charlie.name.clone()).expect("Should fetch the bundle");
    alice.initial_message(&mut server, &charlie_bundle, &charlie.name).unwrap();

    alice.send_new_message(&bob.name, "Hey Bob, secret".to_string(), &mut server).unwrap();
    alice.send_new_message(&charlie.name, "Hey Charlie, secret".to_string(), &mut server).unwrap();

    bob.fetch_message_from_server(&mut server).unwrap();
    charlie.fetch_message_from_server(&mut server).unwrap();

    // Bob got Alice's message to Bob, not Charlie's
    let bob_session = bob.sessions.get_session(&alice.name).unwrap();
    assert_eq!(bob_session.messages.len(), 1);
    assert_eq!(bob_session.messages[0].1, "Hey Bob, secret");

    // Bob and Charlie cannot read each other's messages - they have no session
    assert!(bob.sessions.get_session(&charlie.name).is_err(), "There is no session between Bob and Charlie");
}

#[test]
fn three_pqxdh_states_bob_and_charlie_both_reply_to_alice() {
    let mut server = Server::new();
    let mut alice = Client::new("Alice", Some([1u8; 1]),  &mut server).unwrap();
    let mut bob = Client::new("Bob", Some([2u8; 1]),  &mut server).unwrap();
    let mut charlie = Client::new("Charlie", Some([3u8; 1]),  &mut server).unwrap();

    // Establish Alice→Bob and Alice→Charlie sessions
    let bob_bundle = alice.fetch_bundle_from_server(&mut server, bob.name.clone()).expect("Should fetch the bundle");
    alice.initial_message(&mut server, &bob_bundle, &bob.name).unwrap();
    let charlie_bundle = alice.fetch_bundle_from_server(&mut server, charlie.name.clone()).expect("Should fetch the bundle");
    alice.initial_message(&mut server, &charlie_bundle, &charlie.name).unwrap();

    alice.send_new_message(&bob.name, "Hi Bob".to_string(), &mut server).unwrap();
    alice.send_new_message(&charlie.name, "Hi Charlie".to_string(), &mut server).unwrap();

    bob.fetch_message_from_server(&mut server).unwrap();
    charlie.fetch_message_from_server(&mut server).unwrap();

    // Both reply to Alice
    bob.send_new_message(&alice.name, "Hi Alice from Bob".to_string(), &mut server).unwrap();
    charlie.send_new_message(&alice.name, "Hi Alice from Charlie".to_string(), &mut server).unwrap();

    alice.fetch_message_from_server(&mut server).unwrap();

    // Alice receives both replies in separate sessions
    let alice_bob_session = alice.sessions.get_session(&bob.name).unwrap();
    assert_eq!(alice_bob_session.messages.last().unwrap().1, "Hi Alice from Bob");

    let alice_charlie_session = alice.sessions.get_session(&charlie.name).unwrap();
    assert_eq!(alice_charlie_session.messages.last().unwrap().1, "Hi Alice from Charlie");
}

#[test]
fn independent_sessions_have_different_ratchet_states() {
    let mut server = Server::new();
    let mut alice = Client::new("Alice", Some([1u8; 1]),  &mut server).unwrap();
    let bob = Client::new("Bob", Some([2u8; 1]),  &mut server).unwrap();
    let charlie = Client::new("Charlie", Some([3u8; 1]),  &mut server).unwrap();

    let bob_bundle = alice.fetch_bundle_from_server(&mut server, bob.name.clone()).expect("Should fetch the bundle");
    alice.initial_message(&mut server, &bob_bundle, &bob.name).unwrap();

    let charlie_bundle = alice.fetch_bundle_from_server(&mut server, charlie.name.clone()).expect("Should fetch the bundle");
    alice.initial_message(&mut server, &charlie_bundle, &charlie.name).unwrap();

    let alice_bob_rk = alice.sessions.get_session(&bob.name).unwrap().state.ec_state.rk;
    let alice_charlie_rk = alice.sessions.get_session(&charlie.name).unwrap().state.ec_state.rk;

    // Different sessions must have different root keys
    assert_ne!(alice_bob_rk.0, alice_charlie_rk.0,
        "Sessions with different peers must have different ratchet states");
}

#[test]
fn message_queue_remains_intact_after_fetch() {
    let mut server = Server::new();
    let mut alice = Client::new("Alice", Some([1u8; 1]),  &mut server).unwrap();
    let mut bob = Client::new("Bob", Some([2u8; 1]),  &mut server).unwrap();

    let bundle = alice.fetch_bundle_from_server(&mut server, bob.name.clone()).expect("Should fetch the bundle");
    alice.initial_message(&mut server, &bundle, &bob.name).unwrap();
    alice.send_new_message(&bob.name, "Test".to_string(), &mut server).unwrap();

    bob.fetch_message_from_server(&mut server).unwrap();

    // After fetching, Bob's queue should be empty but still exist in the server
    let remaining = server.user_fetch_messages(bob.name.clone());
    assert!(remaining.is_empty(), "Queue should be empty after fetch, but the entry should still exist");

    // Alice can still send a new message to Bob — queue entry was not deleted
    alice.send_new_message(&bob.name, "Second message".to_string(), &mut server).unwrap();
    bob.fetch_message_from_server(&mut server).unwrap();

    let bob_session = bob.sessions.get_session(&alice.name).unwrap();
    assert_eq!(bob_session.messages.last().unwrap().1, "Second message");
}

#[test]
fn nr_advances_on_receive() {
    let mut server = Server::new();
    let mut alice = Client::new("Alice", Some([1u8; 1]),  &mut server).unwrap();
    let mut bob = Client::new("Bob", Some([2u8; 1]),  &mut server).unwrap();

    let bundle = alice.fetch_bundle_from_server(&mut server, bob.name.clone()).expect("Should fetch the bundle");
    alice.initial_message(&mut server, &bundle, &bob.name).unwrap();

    alice.send_new_message(&bob.name, "M1".to_string(), &mut server).unwrap();
    alice.send_new_message(&bob.name, "M2".to_string(), &mut server).unwrap();
    alice.send_new_message(&bob.name, "M3".to_string(), &mut server).unwrap();

    bob.fetch_message_from_server(&mut server).unwrap();

    // Bob received 3 messages so nr should be 3
    let bob_session = bob.sessions.get_session(&alice.name).unwrap();
    assert_eq!(bob_session.state.ec_state.nr, 3,
        "nr should equal the number of messages received in the current chain");
}

#[test]
fn pn_is_set_correctly_after_dh_ratchet_step() {
    let mut server = Server::new();
    let mut alice = Client::new("Alice", Some([1u8; 1]),  &mut server).unwrap();
    let mut bob = Client::new("Bob", Some([2u8; 1]),  &mut server).unwrap();

    let bundle = alice.fetch_bundle_from_server(&mut server, bob.name.clone()).expect("Should fetch the bundle");
    alice.initial_message(&mut server, &bundle, &bob.name).unwrap();

    // Alice sends 3 messages (ns advances to 3)
    alice.send_new_message(&bob.name, "A1".to_string(), &mut server).unwrap();
    alice.send_new_message(&bob.name, "A2".to_string(), &mut server).unwrap();
    alice.send_new_message(&bob.name, "A3".to_string(), &mut server).unwrap();
    bob.fetch_message_from_server(&mut server).unwrap();

    // Bob replies — triggers a DH ratchet step on Alice's side when she receives
    bob.send_new_message(&alice.name, "B1".to_string(), &mut server).unwrap();
    alice.fetch_message_from_server(&mut server).unwrap();

    // Alice now sends again — her pn should reflect ns from the previous sending chain (3)
    alice.send_new_message(&bob.name, "A4".to_string(), &mut server).unwrap();
    let alice_session = alice.sessions.get_session(&bob.name).unwrap();
    assert_eq!(alice_session.state.ec_state.pn, 3,
        "pn should be set to ns from the previous sending chain after a DH ratchet step");
}

#[test]
fn bob_receives_new_message_before_initial_message_with_retry() {
    // Tests the case where a NewMessage arrives with a bundled InitialMessage (retry_init),
    // because Bob hasn't received the InitialMessage yet
    let mut server = Server::new();
    let mut alice = Client::new("Alice", Some([1u8; 1]),  &mut server).unwrap();
    let mut bob = Client::new("Bob", Some([2u8; 1]),  &mut server).unwrap();

    let bob_bundle = alice.fetch_bundle_from_server(&mut server, bob.name.clone()).expect("Should fetch the bundle");
    alice.initial_message(&mut server, &bob_bundle, &bob.name).unwrap();

    // Alice sends a message immediately — Bob has not fetched the InitialMessage yet
    alice.send_new_message(&bob.name, "First message with retry".to_string(), &mut server).unwrap();

    // Bob fetches — queue has both InitialMessage and NewMessage (with retry_init bundled)
    bob.fetch_message_from_server(&mut server).unwrap();

    let mut session = match bob.sessions.get_session(&alice.name) {
        Ok(session) => session,
        Err(_) => panic!()
    };
    assert!(session.get_received_initial_message(), 
        "Bob should have received the initial message flag set");
    assert_eq!(session.messages.last().unwrap().1, "First message with retry");
}

#[test]
fn received_initial_message_flag_is_false_before_fetch() {
    let mut server = Server::new();
    let mut alice = Client::new("Alice", Some([1u8; 1]),  &mut server).unwrap();
    let bob = Client::new("Bob", Some([2u8; 1]),  &mut server).unwrap();

    let bob_bundle = alice.fetch_bundle_from_server(&mut server, bob.name.clone()).expect("Should fetch the bundle");
    alice.initial_message(&mut server, &bob_bundle, &bob.name).unwrap();

    // Alice has a session — but has not received Bob's initial message yet
    let mut alice_session = match alice.sessions.get_session(&bob.name){
        Ok(session) => session,
        Err(_) => panic!()
    };
    assert!(!alice_session.get_received_initial_message(),
        "Alice should not have received_initial_message set before Bob replies");
}

#[test]
fn received_initial_message_flag_set_after_bob_replies() {
    let mut server = Server::new();
    let mut alice = Client::new("Alice", Some([1u8; 1]),  &mut server).unwrap();
    let mut bob = Client::new("Bob", Some([2u8; 1]),  &mut server).unwrap();

    let bob_bundle = alice.fetch_bundle_from_server(&mut server, bob.name.clone()).expect("Should fetch the bundle");
    alice.initial_message(&mut server, &bob_bundle, &bob.name).unwrap();
    alice.send_new_message(&bob.name, "Hey Bob".to_string(), &mut server).unwrap();

    bob.fetch_message_from_server(&mut server).unwrap();
    bob.send_new_message(&alice.name, "Hey Alice".to_string(), &mut server).unwrap();

    alice.fetch_message_from_server(&mut server).unwrap();

    // Now Alice has received Bob's first message — flag should be set
    let mut alice_session = match alice.sessions.get_session(&bob.name) {
        Ok(ses) => ses,
        Err(_) => panic!()
    };
    assert!(alice_session.get_received_initial_message(),
        "Alice should have received_initial_message set after Bob's first reply");
}

#[test]
fn bob_flag_set_after_receiving_initial_message_directly() {
    // Tests the normal flow: Bob receives InitialMessage first, then NewMessage
    let mut server = Server::new();
    let mut alice = Client::new("Alice", Some([1u8; 1]),  &mut server).unwrap();
    let mut bob = Client::new("Bob", Some([2u8; 1]),  &mut server).unwrap();

    let bob_bundle = alice.fetch_bundle_from_server(&mut server, bob.name.clone()).expect("Should fetch the bundle");
    alice.initial_message(&mut server, &bob_bundle, &bob.name).unwrap();

    // Bob fetches only the InitialMessage first
    bob.fetch_message_from_server(&mut server).unwrap();

    let mut bob_session = match bob.sessions.get_session(&alice.name) {
        Ok(ses) => ses,
        Err(_) => panic!()
    };
    assert!(bob_session.get_received_initial_message(),
        "Bob should have received_initial_message set after receiving InitialMessage");
}

#[test]
fn full_flow_with_retry_init_three_rounds() {
    // Alice sends multiple messages before Bob has fetched InitialMessage
    // All should be decryptable via retry_init mechanism
    let mut server = Server::new();
    let mut alice = Client::new("Alice", Some([1u8; 1]),  &mut server).unwrap();
    let mut bob = Client::new("Bob", Some([2u8; 1]),  &mut server).unwrap();

    let bob_bundle = alice.fetch_bundle_from_server(&mut server, bob.name.clone()).expect("Should fetch the bundle");
    alice.initial_message(&mut server, &bob_bundle, &bob.name).unwrap();

    alice.send_new_message(&bob.name, "Msg 1".to_string(), &mut server).unwrap();
    alice.send_new_message(&bob.name, "Msg 2".to_string(), &mut server).unwrap();
    alice.send_new_message(&bob.name, "Msg 3".to_string(), &mut server).unwrap();

    // Bob fetches everything at once
    bob.fetch_message_from_server(&mut server).unwrap();

    let mut bob_session = match bob.sessions.get_session(&alice.name) {
        Ok(ses) => ses,
        Err(_) => panic!()
    };
    assert!(bob_session.get_received_initial_message());
    assert_eq!(bob_session.messages.len(), 3);
    assert_eq!(bob_session.messages[0].1, "Msg 1");
    assert_eq!(bob_session.messages[1].1, "Msg 2");
    assert_eq!(bob_session.messages[2].1, "Msg 3");

    // Conversation continues normally after
    bob.send_new_message(&alice.name, "Got them all".to_string(), &mut server).unwrap();
    alice.fetch_message_from_server(&mut server).unwrap();

    let alice_session = alice.sessions.get_session(&bob.name).unwrap();
    assert_eq!(alice_session.messages.last().unwrap().1, "Got them all");
}

// Make a test with +max size messages (+10), which tests that the initial message isn't in the queue and the optional initial message in the newest send messag is working as we thought
#[test]
fn actually_use_optional_init_message () {
    let mut server = Server::new();
    let mut alice = Client::new("Alice", Some([1u8; 1]),  &mut server).unwrap();
    let mut bob = Client::new("Bob", Some([2u8; 1]),  &mut server).unwrap();

    let bob_bundle = alice.fetch_bundle_from_server(&mut server, bob.name.clone()).expect("Should fetch the bundle");
    alice.initial_message(&mut server, &bob_bundle, &bob.name).unwrap();

    for i in 0..12 {
        alice.send_new_message(&bob.name, format!("Msg {}", i).to_string(), &mut server).unwrap();
    }

    bob.fetch_message_from_server(&mut server).unwrap();

    let mut bob_session = match bob.sessions.get_session(&alice.name) {
        Ok(ses) => ses,
        Err(_) => panic!()
    };

    assert!(bob_session.get_received_initial_message(),
        "Bob should have received_initial_message set after receiving InitialMessage");
}

#[test]
fn can_send_message_without_established_session(){
    let mut server = Server::new();
    let mut alice = Client::new("Alice", Some([1u8; 1]),  &mut server).unwrap();
    let mut bob = Client::new("Bob", Some([2u8; 1]),  &mut server).unwrap();

    alice.send_new_message(&bob.name, "This is the message to send".to_string(), &mut server).expect("Should send the message");

    bob.fetch_message_from_server(&mut server).expect("Should fetch messages from server");
    
    let bob_session = bob.sessions.get_session(&alice.name).expect("Should get the session");
    
    let message_from_alice = bob_session.messages[0].clone();

    assert_eq!(message_from_alice.1, "This is the message to send".to_string(), "The messages doesn't match...");

}

#[test]
fn receive_returns_all_messages_from_sender() {
    let mut server = Server::new();
    let mut alice = Client::new("Alice", Some([1u8; 1]),  &mut server).unwrap();
    let mut bob = Client::new("Bob", Some([2u8; 1]),  &mut server).unwrap();

    alice.send_new_message(&bob.name, "First message from Alice".to_string(), &mut server).expect("Should send");
    alice.send_new_message(&bob.name, "Second message from Alice".to_string(), &mut server).expect("Should send");

    let messages = bob.receive(&mut server, &alice.name).expect("Should receive messages");
    assert_eq!(messages.len(), 2);
    assert_eq!(messages[0].1, "First message from Alice");
    assert_eq!(messages[1].1, "Second message from Alice");
}

#[test]
fn receive_drains_messages_on_second_call() {
    let mut server = Server::new();
    let mut alice = Client::new("Alice", Some([1u8; 1]),  &mut server).unwrap();
    let mut bob = Client::new("Bob", Some([2u8; 1]),  &mut server).unwrap();

    alice.send_new_message(&bob.name, "Hello".to_string(), &mut server).expect("Should send");

    bob.receive(&mut server, &alice.name).expect("Should receive");
    let second = bob.receive(&mut server, &alice.name);
    assert!(second.is_err(), "Second receive should return Err since messages were drained");
}

#[test]
fn receive_returns_err_when_no_messages() {
    let mut server = Server::new();
    let alice = Client::new("Alice", Some([1u8; 1]), &mut server).unwrap();
    let mut bob = Client::new("Bob", Some([2u8; 1]),  &mut server).unwrap();

    let result = bob.receive(&mut server, &alice.name);
    assert!(result.is_err());
}

#[test]
fn receive_only_drains_target_sender_messages() {
    let mut server = Server::new();
    let mut alice = Client::new("Alice", Some([1u8; 1]),  &mut server).unwrap();
    let mut bob = Client::new("Bob", Some([2u8; 1]),  &mut server).unwrap();
    let mut charlie = Client::new("Charlie", Some([3u8; 1]),  &mut server).unwrap();

    alice.send_new_message(&bob.name, "From Alice".to_string(), &mut server).expect("Should send");
    charlie.send_new_message(&bob.name, "From Charlie".to_string(), &mut server).expect("Should send");

    let alice_messages = bob.receive(&mut server, &alice.name).expect("Should receive Alice's messages");
    assert_eq!(alice_messages.len(), 1);

    // Charlie's message is still receivable
    let charlie_messages = bob.receive(&mut server, &charlie.name).expect("Should receive Charlie's messages");
    assert_eq!(charlie_messages.len(), 1);
}

#[test]
fn messagez_are_removed_from_session_after_receiving() {
    let mut server = Server::new();
    let mut alice = Client::new("Alice", Some([1u8; 1]),  &mut server).unwrap();
    let mut bob = Client::new("Bob", Some([2u8; 1]),  &mut server).unwrap();

    alice.send_new_message(&bob.name, "From Alice".to_string(), &mut server).expect("Should send");
    let _alice_messages = bob.receive(&mut server, &alice.name).expect("Should receive Alice's messages");
    alice.send_new_message(&bob.name, "From Alice again".to_string(), &mut server).expect("Should send");
    
    _ = bob.fetch_message_from_server(&mut server);

    let session = bob.sessions.get_session(&alice.name.clone()).expect("Should get the session");
    assert_eq!(session.messages.len(), 1);
}

#[test]
fn replenished_pq_one_time_prekey_verifies() {
    let mut server = Server::new();
    let mut alice = Client::new("Alice", None, &mut server).unwrap();
    let mut bob = Client::new("Bob", None, &mut server).unwrap();
    // Use up Bob's first ML-KEM one-time prekeys.
    for _ in 0..20 {
        alice.fetch_bundle_from_server(&mut server, bob.name.clone()).expect("Should fetch the bundle");
    }
    bob.add_20_pqs_opk_and_send(&mut server).expect("Should upload new prekeys");
    let bundle = alice.fetch_bundle_from_server(&mut server, bob.name.clone()).expect("Should fetch the bundle");
    let (_pk, id, _sig) = bundle.pq_opk.clone().expect("A replenished ML-KEM one-time prekey is offered");
    assert_eq!(id, 40);
    assert_eq!(pqxdh_impl::verify_pre_keys(&bundle), Ok(()));
}

#[test]
fn replenished_one_time_prekeys_are_nineteen() {
    let mut server = Server::new();
    let mut bob = Client::new("Bob", None, &mut server).unwrap();
    let before = bob.pqxdh_state.opk_counter;
    bob.add_20_opk_and_send(&mut server);
    assert_eq!(bob.pqxdh_state.opk_counter, before + 19);
    assert_eq!(bob.pqxdh_state.keybundle.opks.len(), 39);
}
