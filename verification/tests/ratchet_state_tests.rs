use hacss::kdf_chain::kdf_chain_impl::KdfChain;
use hacss::util::keys::{RootChainKey, X25519PublicKey, X25519PrivateKey, X25519KeyPair};
use hacss::double_ratchet::ratchet_state::{StateDHRatchet};

#[test]
fn can_make_initiator_state(){
    let dummy_sk = RootChainKey([123u8; 32]);
    let dummy_peer_spk_pub =  X25519PublicKey([123u8; 32]);

    let state = StateDHRatchet::init_initiator(dummy_sk, dummy_peer_spk_pub)
        .expect("Tried to make initial state");

    assert_ne!(state.rk, dummy_sk);
    assert!(state.dhr.is_some());
    assert!(state.cks.is_some());
    assert!(state.ckr.is_none());
    assert_eq!(state.ns, 0);
    assert_eq!(state.nr, 0);
    assert_eq!(state.pn, 0);
    assert!(state.mk_skipped.is_empty());

    assert_ne!(state.rk.0, state.cks.expect("Should have a sending chain key").0);
}

#[test]
fn can_make_responder_state(){
    let dummy_sk = RootChainKey([123u8; 32]);
    let dummy_peer_spk_pub =  X25519PublicKey([123u8; 32]);
    let dummy_peer_spk_pri =  X25519PrivateKey([123u8; 32]);
    let dummy_peer_spk_key_pair = X25519KeyPair{
        public_key: dummy_peer_spk_pub,
        private_key: dummy_peer_spk_pri
    };

    let state = StateDHRatchet::init_responder(dummy_sk, dummy_peer_spk_key_pair);

    assert_eq!(state.dhs, dummy_peer_spk_key_pair);
    assert_eq!(state.rk, dummy_sk);
    assert!(state.dhr.is_none());
    assert!(state.cks.is_none());
    assert!(state.ckr.is_none());
    assert_eq!(state.ns, 0);
    assert_eq!(state.nr, 0);
    assert_eq!(state.pn, 0);
    assert!(state.mk_skipped.is_empty());
}

#[test]
fn does_kdf_ck_work_initiator(){
    let dummy_sk = RootChainKey([123u8; 32]);
    let dummy_peer_spk_pub =  X25519PublicKey([123u8; 32]);

    let state = StateDHRatchet::init_initiator(dummy_sk, dummy_peer_spk_pub)
        .expect("Tried to make initial state");

    let (mk, ck) = KdfChain::kdf_ck(state.cks)
        .expect("Could not do the sending key chain ratchet");

    assert_ne!(mk.0, ck.0);
    assert_ne!(mk.0, [0u8; 32]);
    assert_ne!(ck.0, [0u8; 32]);
}
