use hacss::client::client_impl::{Client};
use hacss::server::server_impl::Server; 

fn make_server() -> Server{
        return Server::new();
}

#[test]
fn register_key_bundle(){
    let mut server = make_server();
    // the prekey is uploaded when a new account is made
    let alice = Client::new("Alice", None,  &mut server).unwrap();
    // let bob = Client::new("Bob", None, None, &mut server).unwrap();
    let has_pre_key_for_alice = server.names_keybundles.contains_key(&alice.name);
    assert!(has_pre_key_for_alice, "ERROR: Did not find Alice's keybundle in server's list");
}
#[test]
fn register_multiple_messages_in_queue_same_user(){
    let mut server = make_server();
    let mut alice = Client::new("Alice", None,  &mut server).unwrap();
    let bob = Client::new("Bob", None,  &mut server).unwrap();
    
    let _ = alice.send_new_message(&bob.name, "plaintext".to_string(), &mut server);
    let _ = alice.send_new_message(&bob.name, "plaintext2".to_string(), &mut server);
    
    // Counts the messages in the message queue
    let count = server.user_message_queue
        .get(&bob.name)
        .map(|messages| messages.len())
        .unwrap_or(0);
    // There should be two messages in the queue
    assert_eq!(count, 3);
}

#[test]
fn fetch_bundle_removes_pq_opk_and_opk() {
    let mut server = Server::new();
    let _alice = Client::new("Alice", None,  &mut server).unwrap();
    let bob = Client::new("Bob", None,  &mut server).unwrap();
    
    let before_pq_opk = server.names_keybundles.get(&bob.name).unwrap().pq_s_opks.len();
    let _ = server.fetch_bundle(bob.name.clone());
    let after_pq_opk = server.names_keybundles.get(&bob.name).unwrap().pq_s_opks.len();
    
    assert_eq!(after_pq_opk, before_pq_opk - 1);

    let before_opk = server.names_keybundles.get(&bob.name).unwrap().pq_s_opks.len();
    let _ = server.fetch_bundle(bob.name.clone());
    let after_opk = server.names_keybundles.get(&bob.name).unwrap().pq_s_opks.len();
    
    assert_eq!(after_opk, before_opk - 1);
}
#[test]
fn unknown_user_panics(){
    let mut server = Server::new();
    let _alice = Client::new("Alice", None,  &mut server).unwrap();
    let _bob = Client::new("Bob", None,  &mut server).unwrap();
    let eve_id = ("Eve".to_string(), [0u8;1]);
    let result_fetched_bundle = server.fetch_bundle(eve_id);
    assert_eq!(result_fetched_bundle, Err("No matching responder ID"));
}
#[test]
fn fetch_messages_clears_queue(){
    let mut server = Server::new();
    let mut alice = Client::new("Alice", None,  &mut server).unwrap();
    let mut bob = Client::new("Bob", None,  &mut server).unwrap();

    let bob_fetched_bundle = alice.fetch_bundle_from_server(&mut server, bob.name.clone()).expect("Should fetch the bundle");

    let _ = alice.initial_message(&mut server, &bob_fetched_bundle, &bob.name);
    
    let _ = bob.fetch_message_from_server(&mut server);

    let _ = alice.send_new_message(&bob.name, "Hello mister".to_string(), &mut server);
    let _ = alice.send_new_message(&bob.name, "Hello mister two times".to_string(), &mut server);

    // Checks the sizes before and after a fetch
    let size_before = server.user_message_queue.get(&bob.name).expect("Can't get bob from in the message queue").len();
    let _messages_of_bob = server.user_fetch_messages(bob.name.clone());
    let size_after = server.user_message_queue.get(&bob.name).expect("Can't get bob from in the message queue").len();

    assert_eq!(size_before, size_after+2);
}


#[test]
fn register_bundle_duplicate_ignored(){
    let mut server = Server::new();
    let alice_one = Client::new("Alice", Some(*b"1"),  &mut server).unwrap();
    let alice_one_ik = server.fetch_bundle(alice_one.name.clone()).expect("Should fetch the bundle").ik_dh_pub;
    let alice_two = Client::new("Alice", Some(*b"1"),  &mut server).unwrap();
    
    // makes sure there is still 1 account
    assert_eq!(server.names_keybundles.entries.len(), 1);

    // makes sure, the key for Alice is the same as before the Alice-two instance
    let alice_two_ik = server.fetch_bundle(alice_two.name.clone()).expect("Should fetch the bundle").ik_dh_pub;
    assert_eq!(alice_one_ik, alice_two_ik);


}
// more_opk_message_in_queue
#[test]
fn messages_from_user_are_registered(){
    let mut server = Server::new();
    let mut alice = Client::new("Alice", None,  &mut server).unwrap();
    let mut bob = Client::new("Bob", None,  &mut server).unwrap();

    let a_fetched_bundle = bob.fetch_bundle_from_server(&mut server, alice.name.clone()).expect("Should fetch the bundle");

    let _ = bob.initial_message(&mut server, &a_fetched_bundle, &alice.name);

    let _ = bob.send_new_message(&alice.name, "plaintext".to_string(), &mut server);
    let _ = bob.send_new_message(&alice.name, "plaintext2".to_string(), &mut server);

    let _ = alice.fetch_message_from_server(&mut server);
    let len_queue = server.server_internal_queue.len();
    assert_eq!(len_queue, 0);
}
#[test]
fn added_20_pq_opk_and_opk_when_empty(){
    let mut server = Server::new();
            
    let mut alice = Client::new("Alice", None,  &mut server).unwrap();
    let mut bob = Client::new("Bob", None,  &mut server).unwrap();

    let _bob_pk_bundle = alice.fetch_bundle_from_server(&mut server, bob.name.clone());
    // Alice fetches Bob's key bundle 20 times
    // Empties the pq opk, such that the verifying will be on the last resort key
    for _ in 0..20{
        let _ = alice.fetch_bundle_from_server(&mut server, bob.name.clone());
    }

    let _bob_pkb = server.names_keybundles.get(&bob.name).expect("Couldn't find the prekey bundle for Bob");

    // Bob fetches messages, and uploads the new opk and pqopk to the server
    let _ = bob.fetch_message_from_server(&mut server).expect("Can't find messages for Bob");
    
    // The server fetches the new opks and pq opks and inserts in Bob's prekey bundle
    let _ = server.server_fetch_internal_queue();


    let bob_pkb = server.names_keybundles.get(&bob.name).expect("Couldn't find the prekey bundle for Bob");
    let len_opk_after_fetching = bob_pkb.opks.len();

    assert_eq!(len_opk_after_fetching, 19)
}
