use vstd::prelude::*;

verus! {

/// Size of every shared secret handed between the protocol layers.
pub const SHARED_SECRET_SIZE: usize = 32;

/// Size of a root chain key.
pub const ROOT_CHAIN_KEY_SIZE: usize = 32;

/// Size of a sending or receiving chain key.
pub const CHAIN_KEY_SIZE: usize = 32;

/// Size of a message key.
pub const MESSAGE_KEY_SIZE: usize = 32;

/// ChaCha20-Poly1305 nonce size.
pub const NONCE_SIZE: usize = 12;

/// ChaCha20-Poly1305 tag size.
pub const TAG_SIZE: usize = 16;

/// HMAC-SHA-256 output size, used for the braid authenticator.
pub const MAC_SIZE: usize = 32;

/// First part of an incremental ML-KEM-768 ciphertext.
pub const CT1_SIZE: usize = 960;

/// Second part of an incremental ML-KEM-768 ciphertext.
pub const CT2_SIZE: usize = 128;

/// Seed part of an incremental ML-KEM-768 encapsulation key header.
pub const EK_SEED_SIZE: usize = 32;

/// Hash part of an incremental ML-KEM-768 encapsulation key header.
pub const HEK_SIZE: usize = 32;

/// Encapsulation key header: `ek_seed || hek`.
pub const HEADER_SIZE: usize = 64;

/// Vector part of an incremental ML-KEM-768 encapsulation key.
pub const EK_VECTOR_SIZE: usize = 1152;

/// Compressed ML-KEM-768 decapsulation key.
pub const DECAPSULATION_KEY_SIZE: usize = 2400;

/// State kept between the two halves of an incremental encapsulation.
pub const ENCAPS_SECRET_SIZE: usize = 2080;

/// Number of bytes carried by one braid chunk.
pub const CHUNK_SIZE: usize = 32;

/// Domain separation label of the sparse post-quantum ratchet.
pub const PROTOCOL_INFO: &'static str = "HACSS_MLKEM768_SHA-256";

/// Domain separation label of the triple ratchet message encryption.
pub const TR_PROTOCOL_INFO: &'static str = "HACSS_TRIPLE_RATCHET_SHA-256";

} // verus!
