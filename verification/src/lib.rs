//! A hybrid post-quantum secure messaging library: PQXDH key agreement, a
//! Double Ratchet over X25519, a Sparse Post-Quantum Ratchet over an
//! ML-KEM-768 braid, and their combination into a Triple Ratchet.
pub mod util;
pub mod kdf_chain;
pub mod double_ratchet;
pub mod ml_kem_braid;
pub mod spqr;
pub mod triple_ratchet;
pub mod pqxdh;
pub mod server;
pub mod client;
