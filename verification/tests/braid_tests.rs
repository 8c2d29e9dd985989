use hacss::ml_kem_braid::ml_kem_braid_impl::MlKemBraid;
use hacss::util::constants::SHARED_SECRET_SIZE;
use hacss::util::messages::SCKAMessageType;

// Helper: shared secret for initializing both sides
fn test_ss<'a> () -> &'a[u8; SHARED_SECRET_SIZE] {
    &[42u8; 32]
}

// ── Initialization ────────────────────────────────────────────────────────

#[test]
fn initiator_starts_in_keys_unsampled() {
    // After init, the initiator should be ready to send a header (KeysUnsampled)
    let mut alice = MlKemBraid::init_initiator(test_ss());
    let (msg,( sending_epoch, output_key)) = alice.send().expect("Couldn't send the message");

    // First send from KeysUnsampled should produce a Hdr message
    assert_eq!(msg.message_type, Some(SCKAMessageType::Hdr));
    assert!(output_key.is_none());
}

#[test]
fn responder_starts_in_no_header_received() {
    // Responder starts waiting for a header — send should produce no data
    let mut bob = MlKemBraid::init_responder(test_ss());
    let (msg, (_epoch, output_key)) = bob.send().expect("Couldn't send the message");

    assert_eq!(msg.message_type, None);
    assert!(output_key.is_none());
}

#[test]
fn epoch_starts_at_one_for_initiator() {
    let mut alice = MlKemBraid::init_initiator(test_ss());
    let (msg, (sending_epoch, _)) = alice.send().expect("Couldn't send the message");

    // sending_epoch is epoch - 1, and epoch starts at 1, so sending_epoch = 0
    assert_eq!(sending_epoch, 0);
    assert_eq!(msg.epoch, 1);
}

#[test]
fn epoch_starts_at_one_for_responder() {
    let mut bob = MlKemBraid::init_responder(test_ss());
    let (msg, (sending_epoch, _)) = bob.send().expect("Couldn't send the message");

    assert_eq!(sending_epoch, 0);
    assert_eq!(msg.epoch, 1);
}

// ── Header transmission (Transition 1 → KeysSampled) ─────────────────────

#[test]
fn initiator_sends_header_chunks_until_complete() {
    let mut alice = MlKemBraid::init_initiator(test_ss());

    let mut bob = MlKemBraid::init_responder(test_ss());

    // Header is 96 bytes, chunk size is 32 — so exactly 3 chunks
    let (msg1,( _, _)) = alice.send().expect("Couldn't send the message");
    assert_eq!(msg1.message_type, Some(SCKAMessageType::Hdr));

    let (msg2,( _, _)) = alice.send().expect("Couldn't send the message");
    assert_eq!(msg2.message_type, Some(SCKAMessageType::Hdr));

    let (msg3,( _, _)) = alice.send().expect("Couldn't send the message");
    assert_eq!(msg3.message_type, Some(SCKAMessageType::Hdr));

    let _ = bob.receive(msg1);
    let _ = bob.receive(msg2);
    let _= bob.receive(msg3);
    alice.receive(bob.send().expect("Should send").0).unwrap();

    let (msg4,( _, _)) = alice.send().expect("Couldn't send the message");
    assert_ne!(msg4.message_type, Some(SCKAMessageType::Hdr));
}

#[test]
fn header_chunks_carry_correct_epoch() {
    let mut alice = MlKemBraid::init_initiator(test_ss());

    let (msg1,( _, _)) = alice.send().expect("Couldn't send the message");
    let (msg2,( _, _)) = alice.send().expect("Couldn't send the message");

    assert_eq!(msg1.epoch, 1);
    assert_eq!(msg2.epoch, 1);
}

// ── Ct1 reception triggers transition to HeaderSent (Transition 2) ───────

#[test]
fn initiator_transitions_to_header_sent_on_receiving_ct1() {
    let mut alice = MlKemBraid::init_initiator(test_ss());
    let mut bob = MlKemBraid::init_responder(test_ss());

    // Alice sends both header chunks to Bob
    let hdr1 = alice.send().expect("Couldn't send the message").0;
    let hdr2 = alice.send().expect("Couldn't send the message").0;
    let hdr3 = alice.send().expect("Couldn't send the message").0;
    bob.receive(hdr1).unwrap();
    bob.receive(hdr2).unwrap();
    bob.receive(hdr3).unwrap();

    // Bob now sends ct1 back — Alice should transition to HeaderSent
    let (ct1_msg,( _, output_key)) = bob.send().expect("Couldn't send the message");
    assert_eq!(ct1_msg.message_type, Some(SCKAMessageType::Ct1));

    // Alice receives ct1 — transitions KeysSampled → HeaderSent
    alice.receive(ct1_msg).unwrap();

    // Alice should now be sending the ek_vector
    let (ek_msg,( _, _)) = alice.send().expect("Couldn't send the message");
    assert_eq!(ek_msg.message_type, Some(SCKAMessageType::Ek));
}

// ── Full header + EK exchange produces output key on Bob's side ───────────

#[test]
fn bob_produces_output_key_after_encapsulating_ct1() {
    let mut alice = MlKemBraid::init_initiator(test_ss());
    let mut bob = MlKemBraid::init_responder(test_ss());

    // Alice sends header chunks
    let hdr1 = alice.send().expect("Couldn't send the message").0;
    let hdr2 = alice.send().expect("Couldn't send the message").0;
    let hdr3 = alice.send().expect("Couldn't send the message").0;

    bob.receive(hdr1).unwrap();
    bob.receive(hdr2).unwrap();
    bob.receive(hdr3).unwrap();

    // Bob sends ct1 — this is where Bob produces the output key (HeaderReceived → Ct1Sampled)
    let (ct1_msg,( _, output_key)) = bob.send().expect("Couldn't send the message");
    
    assert_eq!(ct1_msg.message_type, Some(SCKAMessageType::Ct1));
    assert!(output_key.is_some(), "Bob should produce an output key when sending ct1");

    let key = output_key.unwrap();
    assert_eq!(key.epoch, 1);
    assert_ne!(key.key, [0u8; 32], "Output key should not be all zeros");
}

#[test]
fn output_key_epoch_is_correct() {
    let mut alice = MlKemBraid::init_initiator(test_ss());
    let mut bob = MlKemBraid::init_responder(test_ss());

    let hdr1 = alice.send().expect("Couldn't send the message").0;
    let hdr2 = alice.send().expect("Couldn't send the message").0;
    let hdr3 = alice.send().expect("Couldn't send the message").0;
    bob.receive(hdr1).unwrap();
    bob.receive(hdr2).unwrap();
    bob.receive(hdr3).unwrap();

    let (_,( _, output_key)) = bob.send().expect("Couldn't send the message");
    let key = output_key.unwrap();
    assert_eq!(key.epoch, 1);
}

// ── EK vector transmission and integrity check ────────────────────────────

#[test]
fn alice_sends_ek_vector_after_receiving_ct1() {
    let mut alice = MlKemBraid::init_initiator(test_ss());
    let mut bob = MlKemBraid::init_responder(test_ss());

    let hdr1 = alice.send().expect("Couldn't send the message").0;
    let hdr2 = alice.send().expect("Couldn't send the message").0;
    let hdr3 = alice.send().expect("Couldn't send the message").0;
    
    bob.receive(hdr1).unwrap();
    bob.receive(hdr2).unwrap();
    bob.receive(hdr3).unwrap();

    let ct1_msg = bob.send().expect("Couldn't send the message").0;
    alice.receive(ct1_msg).unwrap();

    // Alice should now be in HeaderSent, sending ek_vector chunks
    let (ek_msg,( _, _)) = alice.send().expect("Couldn't send the message");
    assert_eq!(
            ek_msg.message_type,
            Some(SCKAMessageType::Ek),
            "Testing message_type: {:?}, should be {:?}",
            ek_msg.message_type,
            SCKAMessageType::Ek
        );
}

#[test]
fn ek_integrity_check_fails_with_wrong_data() {
    let mut alice = MlKemBraid::init_initiator(test_ss());
    let mut bob = MlKemBraid::init_responder(test_ss());

    let hdr1 = alice.send().expect("Couldn't send the message").0;
    let hdr2 = alice.send().expect("Couldn't send the message").0;
    let hdr3 = alice.send().expect("Couldn't send the message").0;
    bob.receive(hdr1).unwrap();
    bob.receive(hdr2).unwrap();
    bob.receive(hdr3).unwrap();

    let ct1_msg = bob.send().expect("Couldn't send the message").0;
    alice.receive(ct1_msg).unwrap();

    // Collect all ek chunks first
    let mut ek_chunks = vec![];
    for _ in 0..36 {
        let (msg,( _, _)) = alice.send().expect("Couldn't send the message");
        if msg.message_type == Some(SCKAMessageType::Ek) {
            ek_chunks.push(msg);
        } else {
            break;
        }
    }

    // Send all but the last chunk uncorrupted
    for msg in ek_chunks.iter().take(ek_chunks.len() - 1) {
        bob.receive(msg.clone()).unwrap();
    }

    // Corrupt the last chunk so the decoder completes with bad data
    let mut last = ek_chunks.into_iter().last().unwrap();
    if let Some(ref mut chunk) = last.data {
        chunk.data[0] ^= 0xFF;
    }

    // Bob should reject the corrupted ek_vector
    let result = bob.receive(last);
    assert!(result.is_err(), "Corrupted EK should fail integrity check");
}

// ── Full handshake: Alice produces ct2, Alice decapsulates ───────────────

#[test]
fn full_handshake_completes_and_alice_gets_output_key_left_path() {
    let mut alice = MlKemBraid::init_initiator(test_ss());
    let mut bob = MlKemBraid::init_responder(test_ss());

    // Step 1: Alice sends header (3 chunks)
    bob.receive(alice.send().expect("Couldn't send the message").0).unwrap();
    bob.receive(alice.send().expect("Couldn't send the message").0).unwrap();
    bob.receive(alice.send().expect("Couldn't send the message").0).unwrap();

    // Step 2: Bob sends all 30 ct1 chunks; Alice transitions to HeaderSent
    // on receiving the last one (ct1 is 960 bytes / 32 = 30 chunks) 
    for _ in 0..30 {
        let ct1_chunk = bob.send().expect("Couldn't send the message").0;
        alice.receive(ct1_chunk).unwrap();
    }

    // Step 3: Alice (now in HeaderSent or Ct1Received) sends all 36 ek chunks;
    // Bob verifies integrity and encapsulates ct2
    // ek_vector is 1152 bytes / 32 = 36 chunks
    let mut bob_output_key = None;
    for _ in 0..36 {
        let (ek_msg,( _, _)) = alice.send().expect("Couldn't send the message");
        if ek_msg.message_type.is_none() { break; }
        let (_, key) = bob.receive(ek_msg).unwrap();
        if key.is_some() {
            bob_output_key = key;
        }
    }

    // Step 4: Bob sends ct2 (160 bytes / 32 ceil = 6 chunks); Alice decapsulates
    let mut alice_output_key = None;
    for _ in 0..6 {
        let (ct2_msg,( _, _)) = bob.send().expect("Couldn't send the message");
        if ct2_msg.message_type != Some(SCKAMessageType::Ct2) { break; }
        let (_, key) = alice.receive(ct2_msg).unwrap();
        if key.is_some() {
            alice_output_key = key;
        }
    }

    assert!(alice_output_key.is_some(), "Alice should get an output key after full handshake");
    assert!(bob_output_key.is_some() || alice_output_key.is_some(),
        "At least one side should have produced an output key");
}

#[test]
fn handshake_center_path_ek_completes() {
    let mut alice = MlKemBraid::init_initiator(test_ss());
    let mut bob = MlKemBraid::init_responder(test_ss());

    // Alice sends header (3 chunks)
    bob.receive(alice.send().expect("Couldn't send the message").0).unwrap();
    bob.receive(alice.send().expect("Couldn't send the message").0).unwrap();
    bob.receive(alice.send().expect("Couldn't send the message").0).unwrap();

    // Bob sends first ct1 chunk → Alice enters HeaderSent
    alice.receive(bob.send().expect("Couldn't send the message").0).unwrap();

    // Pre-send 2 Ek chunks to Bob before ct1 exchange.
    // Bob accumulates 2 Ek chunks, Alice is HeaderSent.
    for _ in 0..6 {
        let (ek_msg,( _, _)) = alice.send().expect("Couldn't send the message");
        assert_eq!(ek_msg.message_type, Some(SCKAMessageType::Ek));
        bob.receive(ek_msg).unwrap();
    }
    // Bob: 2 Ek chunks. Alice: 1/30 ct1 received, HeaderSent, 34/36 ek remaining.

    // 28 parallel rounds: Alice receives ct1 chunk first, then sends Ek.
    // After this loop: Alice has received chunks 1+28=29 of 30 ct1 → still HeaderSent.
    // Bob has 6+28=34 Ek chunks.
    for _ in 0..28 {
        alice.receive(bob.send().expect("Couldn't send the message").0).unwrap(); // ct1 chunk to Alice
        let (ek_msg,( _, _)) = alice.send().expect("Couldn't send the message");    // Alice still HeaderSent → Ek
        assert_eq!(ek_msg.message_type, Some(SCKAMessageType::Ek),
            "Alice should be HeaderSent, sending Ek");
        bob.receive(ek_msg).unwrap();
    }
    // Alice: 29/30 ct1 chunks, still HeaderSent. Bob: 34 Ek chunks.

    // Deliver the 30th (final) ct1 chunk to Alice → she transitions to Ct1Received.
    // Then send 1 more Ek chunk to Bob to bring him to 35 total.
    // Order matters: send ek first (Alice still HeaderSent), THEN deliver ct1.
    let (ek_msg,( _, _)) = alice.send().expect("Couldn't send the message");
    assert_eq!(ek_msg.message_type, Some(SCKAMessageType::Ek),
        "Alice should still be HeaderSent before receiving final ct1 chunk");
    alice.receive(bob.send().expect("Couldn't send the message").0).unwrap(); // 30th ct1 chunk → Alice now Ct1Received
    bob.receive(ek_msg).unwrap();         // Bob now has 35 Ek chunks
    // Bob: 35 Ek chunks, ek_decoder at 35/36, still Ct1Sampled.
    // Alice: Ct1Received.

    // The 24th and final chunk: Alice sends EkCt1Ack (she's Ct1Received).
    // This completes Bob's ek_decoder while he's still in Ct1Sampled
    // → transition 9 directly to Ct2Sampled (center path).
    let (last_ek,( _, _)) = alice.send().expect("Couldn't send the message");
    assert_eq!(last_ek.message_type, Some(SCKAMessageType::EkCt1Ack),
        "Alice should be Ct1Received now, sending EkCt1Ack");
    bob.receive(last_ek).unwrap();

    assert_eq!(bob.state.describe(), "Ct2Sampled(epoch=1)",
        "Bob must reach Ct2Sampled via center path (transition 9 from Ct1Sampled)");

    // Bob sends ct2 (3 chunks), Alice decapsulates
    let mut alice_output_key = None;
    for _ in 0..5 {
        let (ct2_msg,( _, _)) = bob.send().expect("Couldn't send the message");
        if ct2_msg.message_type != Some(SCKAMessageType::Ct2) { break; }
        let (_, key) = alice.receive(ct2_msg).unwrap();
        if key.is_some() { alice_output_key = key; }
    }
    assert!(alice_output_key.is_some(), "Alice should get output key via center path");
}

// PATH 3 (Right-top): ek arrives fully while Alice is still in HeaderSent
// (before ct1 is complete) → HeaderSent,EkReceivedCt1Sampled → Ct1Received,EkReceivedCt1Sampled
#[test]
fn handshake_right_top_path_ek_received_before_ct1_complete() {
    let mut alice = MlKemBraid::init_initiator(test_ss());
    let mut bob = MlKemBraid::init_responder(test_ss());

    // Header
    bob.receive(alice.send().expect("Couldn't send the message").0).unwrap();
    bob.receive(alice.send().expect("Couldn't send the message").0).unwrap();
    bob.receive(alice.send().expect("Couldn't send the message").0).unwrap();

    // Bob sends first ct1 chunk only — Alice transitions to HeaderSent
    alice.receive(bob.send().expect("Couldn't send the message").0).unwrap();
    // Alice is now HeaderSent — send ALL 36 ek chunks as Ek before ct1 is done
    // Bob receives full ek_vector → transitions Ct1Sampled → EkReceivedCt1Sampled
    for _ in 0..36 {
        let (ek_msg,( _, _)) = alice.send().expect("Couldn't send the message");
        assert_eq!(ek_msg.message_type, Some(SCKAMessageType::Ek),
            "Alice should send Ek type since ct1 not yet fully received");
        bob.receive(ek_msg).unwrap();
    }

    
    // Bob is now EkReceivedCt1Sampled — Alice sends remaining 29 ct1 chunks
    // plus EkCt1Ack; when Bob sees EkCt1Ack he computes ct2
    for _ in 0..29 {
        alice.receive(bob.send().expect("Couldn't send the message").0).unwrap();
    }
    // Alice is now Ct1Received — next send is EkCt1Ack (but ek already sent,
    // so Alice sends a no-data EkCt1Ack or transitions; Bob triggers ct2)
    // Send one EkCt1Ack to signal ct1 acknowledgment
    let (ack_msg,( _, _)) = alice.send().expect("Couldn't send the message");
    assert_eq!(ack_msg.message_type, Some(SCKAMessageType::EkCt1Ack));
    bob.receive(ack_msg).unwrap();

    // Bob should now be Ct2Sampled
    let mut alice_output_key = None;
    for _ in 0..5 {
        let (ct2_msg,( _, _)) = bob.send().expect("Couldn't send the message");
        if ct2_msg.message_type != Some(SCKAMessageType::Ct2) { break; }
        let (_, key) = alice.receive(ct2_msg).unwrap();
        if key.is_some() { alice_output_key = key; }
    }
    assert!(alice_output_key.is_some(), "Alice should get output key via right-top path");
}

// PATH 4 (Right-bottom): ek arrives fully after ct1 complete but before ack triggers ct2
// Ct1Received,Ct1Sampled → Ct1Received,EkReceivedCt1Sampled → Ct1Received,Ct2Sampled
#[test]
fn handshake_right_bottom_path_ek_received_after_ct1_before_ack() {
    let mut alice = MlKemBraid::init_initiator(test_ss());
    let mut bob = MlKemBraid::init_responder(test_ss());

    // (KeysUnsampled, NoHeaderReceived)
    // Alice KeysUnsampled => Bob NoHeaderReceived
    // (KeysSampled, NoHeaderReceived)
    bob.receive(alice.send().expect("Couldn't send the message").0).unwrap();
    
    // (KeysSampled, NoHeaderReceived)
    // Alice KeysSampled => Bob NoHeaderReceived
    // (KeysSampled, NoHeaderReceived)
    bob.receive(alice.send().expect("Couldn't send the message").0).unwrap();

    // (KeysSampled, NoHeaderReceived)
    // Alice KeysSampled => Bob NoHeaderReceived
    // (KeysSampled, HeaderReceived)
    bob.receive(alice.send().expect("Couldn't send the message").0).unwrap();
    
    // (KeysSampled, HeaderReceived)
    // Bob HeaderReceived => Alice KeysSampled
    // (HeaderSent, Ct1Sampled)
    let (msg_bob_header_received,( _, bob_key)) = bob.send().expect("Couldn't send the message");
    alice.receive(msg_bob_header_received).unwrap();

    // Alice sends all ek messages, but bob receives all but the last one
    // (HeaderSent, Ct1Sampled)
    // Alice HeaderSent => Bob Ct1Sampled
    // (HeaderSent, Ct1Sampled)
    for _ in 0..35 {
        bob.receive(alice.send().expect("Couldn't send the message").0).unwrap();
    }
    
    // (HeaderSent, Ct1Sampled)
    // Alice HeaderSent => 
    // (HeaderSent, Ct1Sampled)
    let (alice_last_msg_headersent_state,( _, _)) = alice.send().expect("Couldn't send the message");

    // (HeaderSent, Ct1Sampled)
    // Bob Ct1Sampled => Alice HeaderSent
    // (Ct1Received, Ct1Sampled)
    for _ in 0..29 {
        alice.receive(bob.send().expect("Couldn't send the message").0).unwrap();
    }

    
    // (Ct1Received, Ct1Sampled)
    //  => Bob Ct1Sampled
    // (Ct1Received, EkReceivedCt1Sampled)
    bob.receive(alice_last_msg_headersent_state).unwrap();

    // (Ct1Received, EkReceivedCt1Sampled)
    //  Alice Ct1Received => Bob EkRecievedCt1Sampled
    // (Ct1Received, Ct2Sampled)
    bob.receive(alice.send().expect("Couldn't send the message").0).unwrap();


    // (Ct1Received, Ct2Sampled)
    //  Bob Ct2Sampled => 
    // (Ct1Received, Ct2Sampled)
    let (last_bob_msg,( _, _)) = bob.send().expect("Couldn't send the message");
    assert_eq!(last_bob_msg.message_type, Some(SCKAMessageType::Ct2));
    
    // (Ct1Received, Ct2Sampled)
    //  => Alice Ct1Received 
    // (EkSentCt1Received, Ct2Sampled)
    alice.receive(last_bob_msg).unwrap();
    
    // (EkSentCt1Received, Ct2Sampled)
    //  Bob Ct2Sampled => Alice EkSentCt1Received 
    // (NoHeaderReceived, Ct2Sampled)
    for _ in 0..3 {
        alice.receive(bob.send().expect("Couldn't send the message").0).unwrap();
    }
    
    let (_, alice_output_key) = alice.receive(bob.send().expect("Couldn't send the message").0).unwrap();
    
    assert!(alice_output_key.is_some(), "Alice should get output key via right-bottom path");

    assert!(bob_key.is_some(), "Bob should get output key via right-bottom path");

    assert_eq!(alice_output_key.unwrap().key, bob_key.unwrap().key);
    
}

#[test]
fn both_sides_produce_same_output_key() {
    let mut alice = MlKemBraid::init_initiator(test_ss());
    let mut bob = MlKemBraid::init_responder(test_ss());


    // Alice sends header (3 chunks)
    bob.receive(alice.send().expect("Couldn't send the message").0).unwrap();
    bob.receive(alice.send().expect("Couldn't send the message").0).unwrap();
    bob.receive(alice.send().expect("Couldn't send the message").0).unwrap();

    // Bob sends first ct1 chunk — produces output key, Alice transitions to HeaderSent
    let (ct1_msg,( _, bob_key_opt)) = bob.send().expect("Couldn't send the message");

    let bob_key = bob_key_opt.expect("Bob should produce key on first ct1 send");
    alice.receive(ct1_msg).unwrap();

    // Remaining 29 ct1 chunks and 29 ek chunks sent in parallel
    for _ in 0..29 {

        let bob_msg = bob.send().expect("Couldn't send the message").0;

        alice.receive(bob_msg).unwrap();

        bob.receive(alice.send().expect("Couldn't send the message").0).unwrap();

    }
    

    // 36-29 = 7
    // Alice sends remaining 7 ek chunks with EkCt1Ack (she's now in Ct1Received)
    for _ in 0..7 {
        bob.receive(alice.send().expect("Couldn't send the message").0).unwrap();
    }
    

    
    
    
    


    // Bob sends ct2 (3 chunks), Alice decapsulates
    let mut alice_key = None;
    for _ in 0..5 {
        let (_, key) = alice.receive(bob.send().expect("Couldn't send the message").0).unwrap();
        if key.is_some() { alice_key = key; }
    }

    let alice_key = alice_key.expect("Alice should produce an output key");
    assert_eq!(alice_key.key, bob_key.key, "Both sides must derive the same shared key");
}

// ── Epoch advancement ─────────────────────────────────────────────────────

#[test]
fn epoch_increments_after_full_handshake_on_alice_side() {
    let mut alice = MlKemBraid::init_initiator(test_ss());
    let mut bob = MlKemBraid::init_responder(test_ss());

    // (KeysUnsampled, NoHeaderReceived)
    // Alice KeysUnsampled => Bob NoHeaderReceived
    // (KeysSampled, NoHeaderReceived)
    bob.receive(alice.send().expect("Couldn't send the message").0).unwrap();
    bob.receive(alice.send().expect("Couldn't send the message").0).unwrap();
    
    // (KeysSampled, NoHeaderReceived)
    // Alice KeysSampled => Bob NoHeaderReceived
    // (KeysSampled, HeaderReceived)
    bob.receive(alice.send().expect("Couldn't send the message").0).unwrap();
    
    // (KeysSampled, HeaderReceived)
    // Bob HeaderReceived => Alice KeysSampled
    // (HeaderSent, Ct1Sampled)
    let (msg_bob_header_received,( _, _bob_key)) = bob.send().expect("Couldn't send the message");
    alice.receive(msg_bob_header_received).unwrap();

    // Alice sends all ek messages, but bob receives all but the last one
    // (HeaderSent, Ct1Sampled)
    // Alice HeaderSent => Bob Ct1Sampled
    // (HeaderSent, Ct1Sampled)
    for _ in 0..35 {
        bob.receive(alice.send().expect("Couldn't send the message").0).unwrap();
    }
    
    // (HeaderSent, Ct1Sampled)
    // Alice HeaderSent => 
    // (HeaderSent, Ct1Sampled)
    let (alice_last_msg_headersent_state,( _, _)) = alice.send().expect("Couldn't send the message");

    // (HeaderSent, Ct1Sampled)
    // Bob Ct1Sampled => Alice HeaderSent
    // (Ct1Received, Ct1Sampled)
    for _ in 0..30 {
        alice.receive(bob.send().expect("Couldn't send the message").0).unwrap();
    }

    
    // (Ct1Received, Ct1Sampled)
    //  => Bob Ct1Sampled
    // (Ct1Received, EkReceivedCt1Sampled)
    bob.receive(alice_last_msg_headersent_state).unwrap();

    // (Ct1Received, EkReceivedCt1Sampled)
    //  Alice Ct1Received => Bob EkRecievedCt1Sampled
    // (Ct1Received, Ct2Sampled)
    bob.receive(alice.send().expect("Couldn't send the message").0).unwrap();

    let mut alice_epoch_after = 0u64;
    for _ in 0..30 {
        let (ct2_msg,( _, _)) = bob.send().expect("Couldn't send the message");
        if ct2_msg.message_type != Some(SCKAMessageType::Ct2) { break; }
        let (epoch, key) = alice.receive(ct2_msg).unwrap();

        if key.is_some() {
            alice_epoch_after = epoch + 1; // epoch has incremented
            break;
        }
    }


    assert!(alice_epoch_after >= 1, "Epoch should have advanced after handshake");
}

// ── No output key before handshake completes ──────────────────────────────

#[test]
fn no_output_key_before_handshake_completes() {
    let mut alice = MlKemBraid::init_initiator(test_ss());
    let mut bob = MlKemBraid::init_responder(test_ss());

    // Only send the first header chunk — handshake incomplete
    let hdr1 = alice.send().expect("Couldn't send the message").0;
    let (receiving_epoch, output_key) = bob.receive(hdr1).unwrap();

    assert!(output_key.is_none(), "No output key should be produced mid-handshake");
}

#[test]
fn different_shared_secrets_produce_different_output_keys() {
    let mut alice1 = MlKemBraid::init_initiator(&[1u8; 32]);
    let mut bob1   = MlKemBraid::init_responder(&[1u8; 32]);

    let mut alice2 = MlKemBraid::init_initiator(&[2u8; 32]);
    let mut bob2   = MlKemBraid::init_responder(&[2u8; 32]);

    // Run both handshakes to the point where Bob produces a key
    fn run_to_bob_key(alice: &mut MlKemBraid, bob: &mut MlKemBraid) -> [u8; 32] {
        let hdr1 = alice.send().expect("Couldn't send the message").0;
        let hdr2 = alice.send().expect("Couldn't send the message").0;
        let hdr3 = alice.send().expect("Couldn't send the message").0;
        bob.receive(hdr1).unwrap();
        bob.receive(hdr2).unwrap();
        bob.receive(hdr3).unwrap();
        let (_,( _, key)) = bob.send().expect("Couldn't send the message");
        key.expect("Bob should produce key").key
    }

    let key1 = run_to_bob_key(&mut alice1, &mut bob1);
    let key2 = run_to_bob_key(&mut alice2, &mut bob2);

    assert_ne!(key1, key2, "Different initial secrets must produce different output keys");
}

#[test]
fn epochs_throughout_the_execution () {
    let mut alice = MlKemBraid::init_initiator(test_ss());
    let mut bob = MlKemBraid::init_responder(test_ss());

    // (KeysUnsampled, NoHeaderReceived)
    // Alice KeysUnsampled => Bob NoHeaderReceived
    // (KeysSampled, NoHeaderReceived)
    let (a_msg_1, (a_epoch_1, _)) = alice.send().expect("Couldn't send the message");
    let (b_epoch_1, _) = bob.receive(a_msg_1).unwrap();

    let (a_msg_1, (a_epoch_1, _)) = alice.send().expect("Couldn't send the message");
    let (b_epoch_1, _) = bob.receive(a_msg_1).unwrap();
    
    // (KeysSampled, NoHeaderReceived)
    // Alice KeysSampled => Bob NoHeaderReceived
    // (KeysSampled, HeaderReceived)
    let (a_msg_2, (a_epoch_2, _)) = alice.send().expect("Couldn't send the message");
    let (b_epoch_2, _) = bob.receive(a_msg_2).unwrap();
    
    // (KeysSampled, HeaderReceived)
    // Bob HeaderReceived => Alice KeysSampled
    // (HeaderSent, Ct1Sampled)
    let (msg_bob_header_received, (b_epoch_3, bob_key)) = bob.send().expect("Couldn't send the message");
    let (a_epoch_3, _) =alice.receive(msg_bob_header_received).unwrap();

    // Alice sends all ek messages, but bob receives all but the last one
    // (HeaderSent, Ct1Sampled)
    // Alice HeaderSent => Bob Ct1Sampled
    // (HeaderSent, Ct1Sampled)
    for _ in 1..36 {
        let (a_msg_1_loop,( a_epoch_1_loop, _)) = alice.send().expect("Couldn't send the message");

        let (b_epoch_1_loop, _) = bob.receive(a_msg_1_loop).unwrap();

    }
    
    // (HeaderSent, Ct1Sampled)
    // Alice HeaderSent => 
    // (HeaderSent, Ct1Sampled)
    let (alice_last_msg_headersent_state,( a_epoch_4, _)) = alice.send().expect("Couldn't send the message");

    // (HeaderSent, Ct1Sampled)
    // Bob Ct1Sampled => Alice HeaderSent
    // (Ct1Received, Ct1Sampled)
    for _ in 1..30 {
        let (b_msg_2_loop,( b_epoch_2_loop, bob_key)) = bob.send().expect("Couldn't send the message");

        let (a_epoch_2_loop, _) =alice.receive(b_msg_2_loop).unwrap();

    }

    
    // (Ct1Received, Ct1Sampled)
    //  => Bob Ct1Sampled
    // (Ct1Received, EkReceivedCt1Sampled)
    let (b_epoch_4, _) = bob.receive(alice_last_msg_headersent_state).unwrap();

    // (Ct1Received, EkReceivedCt1Sampled)
    //  Alice Ct1Received => Bob EkRecievedCt1Sampled
    // (Ct1Received, Ct2Sampled)
    let (a_msg_5,( a_epoch_5, _)) = alice.send().expect("Couldn't send the message");
    let (b_epoch_5, _) = bob.receive(a_msg_5).unwrap();

    // (Ct1Received, Ct2Sampled)
    //  Bob Ct2Sampled => 
    // (Ct1Received, Ct2Sampled)
    let (last_bob_msg,( b_epoch_6, _)) = bob.send().expect("Couldn't send the message");
    assert_eq!(last_bob_msg.message_type, Some(SCKAMessageType::Ct2));
    
    // (Ct1Received, Ct2Sampled)
    //  => Alice Ct1Received 
    // (EkSentCt1Received, Ct2Sampled)
    let (a_epoch_6, _) = alice.receive(last_bob_msg).unwrap();
    
    // (EkSentCt1Received, Ct2Sampled)
    //  Bob Ct2Sampled => Alice EkSentCt1Received 
    // (EkSentReceived, Ct2Sampled)
    for _ in 0..4 {
        let (b_msg_last,( b_epoch_7, bob_key)) = bob.send().expect("Couldn't send the message");
        let (a_epoch_7, _) = alice.receive(b_msg_last).unwrap();
    }

    // (NoHeaderReceived, Ct2Sampled)
    //  Bob Ct2Sampled => Alice NoHeaderReceived 
    // (NoHeader, Ct2Sampled)
    let (b_msg_last_last,( b_epoch_8, bob_key)) = bob.send().expect("Couldn't send the message");
    let (a_epoch_8, _) = alice.receive(b_msg_last_last).unwrap();

    let (a_msg_9,( a_epoch_9, _)) = alice.send().expect("Couldn't send the message");
    let (b_epoch_5, _) = bob.receive(a_msg_9).unwrap();

    let (b_msg_last_last, (b_epoch_8, bob_key)) = bob.send().expect("Couldn't send the message");
    let (a_epoch_8, _) = alice.receive(b_msg_last_last).unwrap();
    assert_eq!(1, b_epoch_8);
    assert_eq!(1, a_epoch_8);

}

// ── Key agreement over many epochs ────────────────────────────────────────

#[test]
fn every_epoch_key_agrees_in_ping_pong() {
    let mut alice = MlKemBraid::init_initiator(test_ss());
    let mut bob = MlKemBraid::init_responder(test_ss());
    let mut alice_keys: Vec<(u64, [u8; 32])> = Vec::new();
    let mut bob_keys: Vec<(u64, [u8; 32])> = Vec::new();
    for _ in 0..400 {
        let (msg, (_, k)) = alice.send().expect("Couldn't send the message");
        if let Some(k) = k { alice_keys.push((k.epoch, k.key)); }
        let (_, k) = bob.receive(msg).expect("Couldn't receive the message");
        if let Some(k) = k { bob_keys.push((k.epoch, k.key)); }
        let (msg, (_, k)) = bob.send().expect("Couldn't send the message");
        if let Some(k) = k { bob_keys.push((k.epoch, k.key)); }
        let (_, k) = alice.receive(msg).expect("Couldn't receive the message");
        if let Some(k) = k { alice_keys.push((k.epoch, k.key)); }
    }
    let mut common = 0;
    for (epoch, alice_key) in &alice_keys {
        if let Some((_, bob_key)) = bob_keys.iter().find(|(e, _)| e == epoch) {
            assert_eq!(bob_key, alice_key, "Both sides must derive the same key in epoch {}", epoch);
            common += 1;
        }
    }
    assert!(common >= 3, "the run should complete at least three epochs, completed {}", common);
    let mut epochs: Vec<u64> = alice_keys.iter().map(|(e, _)| *e).collect();
    epochs.dedup();
    assert_eq!(epochs.len(), alice_keys.len(), "one key per epoch");
}
