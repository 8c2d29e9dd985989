pub mod encoder;
pub mod decoder;
pub mod authenticator;
pub mod ml_kem_braid_impl;
pub mod agreement;
