pub mod kdf;
pub mod kdf_chain_impl;
