pub mod kdf_impl;
