pub mod ratchet_state;
pub mod messages_ratchet;
