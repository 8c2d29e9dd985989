use hacss::pqxdh::pqxdh_impl;
use hacss::triple_ratchet::triple_ratchet_impl::{TripleRatchetState, concat_ad_with_tr_header, kdf_hybrid};
use hacss::util::constants::SHARED_SECRET_SIZE;
use hacss::util::encrypt_decrypt::{decrypt, encrypt};
use hacss::util::keys::MessageKey;
use hacss::util::messages::{ECHeader, SCKAMessageHeader};

#[test]
fn encrypt_and_decrypt () {
    let plaintext = "Hello from this universe";
    let ad_header = rand_bytes::<96>();
    let mk = rand_bytes::<32>();

    let ct = encrypt(&MessageKey(mk), plaintext, &ad_header.to_vec());

    let res_plaintext = decrypt(&MessageKey(mk), &ct, &ad_header.to_vec()).unwrap();

    assert_eq!(plaintext.to_string(), res_plaintext);
}

#[test]
fn encrypt_and_decrypt_tampered () {
    let plaintext = "Hello from this universe";
    let ad_header = rand_bytes::<96>();
    let mk = rand_bytes::<32>();

    let ct = encrypt(&MessageKey(mk), plaintext, &ad_header.to_vec());

    let mut tampered = ct.clone();
    tampered[ct.len() / 2] ^= 0xFF;


    let res_plaintext = decrypt(&MessageKey(mk), &tampered, &ad_header.to_vec());

    assert!(res_plaintext.is_err());
}

#[test]
fn encrypt_creates_longer_ct () {
    let plaintexts = ["".to_string(), "11".to_string(), "Hello from this universe".to_string(), "a".repeat(100), "a".repeat(1000)];
    let ad_header = rand_bytes::<96>();
    let mk = rand_bytes::<32>();
    
    println!("--------- Ciphertexts vs Plaintext lengths ---------");
    for plaintext in plaintexts {
        let ct = encrypt(&MessageKey(mk), plaintext.as_str(), &ad_header.to_vec());
        println!("Plaintext length: {}", plaintext.len());
        println!("Ciphertext length: {:?}", ct.len());
        println!("------------------------------------------------------")
    }
}


#[test]
fn test_concat_ad_header_consistency() {
    let ad = [0u8; 64];
    let scka_header = SCKAMessageHeader::default(); // Assumes Default is implemented
    let ec_header = ECHeader::default();
    
    let result1 = concat_ad_with_tr_header(ad, &scka_header, &ec_header);
    let result2 = concat_ad_with_tr_header(ad, &scka_header, &ec_header);
    
    assert_eq!(result1, result2, "AD concatenation must be deterministic");
    assert!(result1.len() > 64, "Header must include AD and serialized headers");
}

#[test]
fn test_kdf_hybrid_differentiation() {
    let mk_ec = MessageKey([1u8; 32]);
    let mk_pq = MessageKey([2u8; 32]);
    let mk_pq_alt = MessageKey([3u8; 32]);

    let key1 = kdf_hybrid(mk_ec, mk_pq);
    let key2 = kdf_hybrid(mk_ec, mk_pq_alt);

    assert_ne!(key1.0, key2.0, "Hybrid KDF must produce different keys for different inputs");
}

#[test]
fn test_triple_ratchet_full_roundtrip() {
    // 1. Setup Keys/Shared Secrets (Mocking the result of an X3DH/PQXDH)
    let ss_ec = [0u8; SHARED_SECRET_SIZE];
    let ss_scka = [0u8; SHARED_SECRET_SIZE];
    
    

    // Generate Bob's DH Keypair for EC state init
    let bob_keypair = pqxdh_impl::gen_curve_key_pair(); 
    let bob_pub = bob_keypair.public_key;

    // 2. Initialize Alice and Bob
    let mut alice = TripleRatchetState::rathet_init_initiator_tr(ss_ec, ss_scka, bob_pub).unwrap();
    let mut bob = TripleRatchetState::rathet_init_responder_tr(ss_ec, ss_scka, bob_keypair);

    // 3. Alice Encrypts
    let plaintext = "Hello, Triple Ratchet!".to_string();
    let ad = [0u8; 64];
    
    let (tr_header, ciphertext) = alice.tr_encrypt(&plaintext, &ad)
        .expect("Encryption failed");

    // 4. Bob Decrypts
    let decrypted = bob.tr_decrypt( tr_header, ciphertext, ad)
        .expect("Decryption failed");

    assert_eq!(plaintext, decrypted);
}

fn sample_plaintexts() -> Vec<String> {
    vec![
        "".to_string(),
        "a".to_string(),
        "Hello, Triple Ratchet!".to_string(),
        "h\u{e9}llo w\u{f6}rld \u{2713}".to_string(),
        "x".repeat(1000),
    ]
}

fn sample_ads() -> Vec<[u8; 64]> {
    vec![[0u8; 64], [0xFFu8; 64], rand_bytes::<64>()]
}

#[test]
fn test_decryption_fails_with_bit_flip() {
    for plaintext in sample_plaintexts() {
        for ad in sample_ads() {
            let ss = [0u8; SHARED_SECRET_SIZE];
            let bob_pk = pqxdh_impl::gen_curve_key_pair();
            let mut alice = TripleRatchetState::rathet_init_initiator_tr(ss, ss, bob_pk.public_key).unwrap();
            let mut bob = TripleRatchetState::rathet_init_responder_tr(ss, ss, bob_pk);

            let (header, mut ciphertext) = alice.tr_encrypt(&plaintext, &ad).unwrap();

            // Flip a bit in the ciphertext
            if !ciphertext.is_empty() {
                ciphertext[0] ^= 0xFF;
            }

            let result = bob.tr_decrypt(header, ciphertext, ad);
            assert!(result.is_err(), "Decryption should fail if ciphertext is tampered with");
        }
    }
}

#[test]
fn test_always_decrypts_valid_data() {
    for plaintext in sample_plaintexts() {
        for ad in sample_ads() {
            let ss = [0u8; SHARED_SECRET_SIZE];
            let bob_kp = pqxdh_impl::gen_curve_key_pair();

            let mut alice = TripleRatchetState::rathet_init_initiator_tr(ss, ss, bob_kp.public_key).unwrap();
            let mut bob = TripleRatchetState::rathet_init_responder_tr(ss, ss, bob_kp);

            // Execute encryption
            let (header, ciphertext) = alice.tr_encrypt(&plaintext, &ad)
                .expect("Encryption should never fail on valid inputs");

            // Execute decryption
            let decrypted = bob.tr_decrypt(header, ciphertext, ad)
                .expect("Decryption should always succeed for valid, untampered data");
            assert_eq!(plaintext, decrypted);
        }
    }
}

#[test]
fn test_for_encrypting_with_empty_string() {
    let ad = [0u8; 64];
    let plaintext = "".to_string();

    let ss = [0u8; SHARED_SECRET_SIZE];
    let bob_pk = pqxdh_impl::gen_curve_key_pair();
    let mut alice = TripleRatchetState::rathet_init_initiator_tr(ss, ss, bob_pk.public_key).unwrap();
    let mut bob = TripleRatchetState::rathet_init_responder_tr(ss, ss, bob_pk);

    let (header, mut ciphertext) = alice.tr_encrypt(&plaintext, &ad).unwrap();
    

    // Flip a bit in the ciphertext
    if !ciphertext.is_empty() {
        ciphertext[0] ^= 0xFF;
    }

    let result = bob.tr_decrypt(header, ciphertext, ad);
    assert!(result.is_err(), "Decryption should fail if ciphertext is tampered with");

}

#[test]
fn test_ad_mismatch_fails_decryption() {
    let ss = [0u8; SHARED_SECRET_SIZE];
    let bob_kp = pqxdh_impl::gen_curve_key_pair();

    let mut alice = TripleRatchetState::rathet_init_initiator_tr(ss, ss, bob_kp.public_key).unwrap();
    let mut bob = TripleRatchetState::rathet_init_responder_tr(ss, ss, bob_kp);

    let plaintext = "Top secret data".to_string();
    let correct_ad = [0xAA; 64];
    let wrong_ad = [0xBB; 64]; // Different AD

    let (header, ciphertext) = alice.tr_encrypt(&plaintext, &correct_ad).unwrap();

    // Bob attempts to decrypt with the wrong AD
    let result = bob.tr_decrypt(header, ciphertext, wrong_ad);
    
    assert!(result.is_err(), "Decryption MUST fail if the Associated Data does not match");
}

#[test]
fn test_empty_plaintext_success() {
    let ss = [0u8; SHARED_SECRET_SIZE];
    let bob_kp = pqxdh_impl::gen_curve_key_pair();

    let mut alice = TripleRatchetState::rathet_init_initiator_tr(ss, ss, bob_kp.public_key).unwrap();
    let mut bob = TripleRatchetState::rathet_init_responder_tr(ss, ss, bob_kp);

    // Edge case: 0-byte message
    let plaintext: String = "".to_string(); 
    let ad = [0u8; 64];

    let (header, ciphertext) = alice.tr_encrypt(&plaintext.clone(), &ad).unwrap();
    let decrypted = bob.tr_decrypt(header, ciphertext, ad).unwrap();

    assert_eq!(plaintext, decrypted, "Should successfully encrypt and decrypt an empty plaintext");
}

#[test]
fn test_multiple_sequential_messages() {
    let ss = [0u8; SHARED_SECRET_SIZE];
    let bob_kp = pqxdh_impl::gen_curve_key_pair();

    let mut alice = TripleRatchetState::rathet_init_initiator_tr(ss, ss, bob_kp.public_key).unwrap();
    let mut bob = TripleRatchetState::rathet_init_responder_tr(ss, ss, bob_kp);

    let ad = [0u8; 64];

    // Alice sends 3 messages consecutively (advances send chain without DH ratchet)
    for i in 1..=3 {
        let plaintext = format!("Message {}", i);
        let (header, ciphertext) = alice.tr_encrypt(&plaintext, &ad).unwrap();
        
        let decrypted = bob.tr_decrypt(header, ciphertext, ad).unwrap();
        assert_eq!(plaintext, decrypted, "Sequential message {} failed", i);
    }
}

#[test]
fn test_ping_pong_bidirectional() {
    let ss = [0u8; SHARED_SECRET_SIZE];
    let bob_kp = pqxdh_impl::gen_curve_key_pair();

    let mut alice = TripleRatchetState::rathet_init_initiator_tr(ss, ss, bob_kp.public_key).unwrap();
    let mut bob = TripleRatchetState::rathet_init_responder_tr(ss, ss, bob_kp);

    let ad = [0u8; 64];

    // Alice -> Bob
    let p1 = "Alice to Bob 1".to_string();
    let (h1, c1) = alice.tr_encrypt(&p1, &ad).unwrap();
    let d1 = bob.tr_decrypt(h1, c1, ad).unwrap();
    assert_eq!(p1, d1);

    // Bob -> Alice (Triggers DH Ratchet on Bob's side)
    let p2 = "Bob to Alice 1".to_string();
    let (h2, c2) = bob.tr_encrypt(&p2, &ad).unwrap();
    let d2 = alice.tr_decrypt(h2, c2, ad).unwrap();
    assert_eq!(p2, d2);

    // Alice -> Bob (Triggers DH Ratchet on Alice's side)
    let p3 = "Alice to Bob 2".to_string();
    let (h3, c3) = alice.tr_encrypt(&p3, &ad).unwrap();
    let d3 = bob.tr_decrypt(h3, c3, ad).unwrap();
    assert_eq!(p3, d3);
}

fn rand_bytes<const N: usize>() -> [u8; N] {
    let mut b = [0u8; N];
    rand::fill(&mut b[..]);
    b
}
