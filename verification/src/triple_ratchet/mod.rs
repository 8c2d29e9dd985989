pub mod triple_ratchet_impl;
