use hacss::double_ratchet::messages_ratchet::{ratchet_decrypt, ratchet_encrypt};
use hacss::double_ratchet::ratchet_state::StateDHRatchet;
use hacss::pqxdh::pqxdh_impl::gen_curve_key_pair;
use hacss::util::keys::{RootChainKey, X25519KeyPair};


#[test]
fn encrypt_decrypt() {
    let sk = RootChainKey(rand_bytes::<32>());
    let bob_dhs = gen_curve_key_pair();
    let bob_key_pair = X25519KeyPair {
        private_key: bob_dhs.private_key,
        public_key: bob_dhs.public_key,
    };
    let ad = rand_bytes::<64>();
    let plaintext = b"hello";

    let mut alice = StateDHRatchet::init_initiator(sk, bob_key_pair.public_key).unwrap();
    let mut bob = StateDHRatchet::init_responder(sk, bob_key_pair);

    let (a_header, a_ct, a_tag, a_nonce) = ratchet_encrypt(&mut alice, plaintext, &ad);
    let res = ratchet_decrypt(&mut bob, &a_header, &a_ct, &ad, a_tag, a_nonce).unwrap();
    
    
    
    assert_eq!(res, plaintext);
}


fn rand_bytes<const N: usize>() -> [u8; N] {
    let mut b = [0u8; N];
    rand::fill(&mut b[..]);
    b
}
