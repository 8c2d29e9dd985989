use hacss::pqxdh::pqxdh_impl::PQXDHState;

#[test]
fn initialize_two_different_accounts() {
    let acc1 = PQXDHState::new().unwrap();
    let acc2 = PQXDHState::new().unwrap();

    // Identity key pairs differ (compare public keys)
    assert_ne!(acc1.keybundle.identity.dh.public_key, acc2.keybundle.identity.dh.public_key);

    // Identity signing key pairs differ
    assert_ne!(
        acc1.keybundle.identity.dsa.signing_key.0.as_slice(),
        acc2.keybundle.identity.dsa.signing_key.0.as_slice()
    );

    // Signed pre-key public keys differ
    assert_ne!(acc1.keybundle.spk.key.public_key, acc2.keybundle.spk.key.public_key);
    

    // Signed pre-key signatures differ
    assert_ne!(
    acc1.keybundle.spk.sig.as_ref(), acc2.keybundle.spk.sig.as_ref()
    );

    // One-time pre-key counts match
    
    assert_eq!(
    acc1.keybundle.opks.len(),
    acc2.keybundle.opks.len()
    );

    // PQ signed last resort keys differ
    assert_ne!(acc1.keybundle.pqspk.key.public_key.0,
               acc2.keybundle.pqspk.key.public_key.0);

    // PQ one-time pre-key counts match
    
    assert_eq!(
    acc1.keybundle.pq_opks.len(),
    acc2.keybundle.pq_opks.len()
    );

    // Counters are equal (both freshly initialized)
    assert_eq!(acc1.opk_counter,
    acc2.opk_counter);

    assert_eq!(acc1.pq_opk_counter,
    acc2.pq_opk_counter);

    assert_eq!(acc1.pqspk_counter,
    acc2.pqspk_counter);

    assert_eq!(acc1.spk_counter,
    acc2.spk_counter);
    }
