pub mod client_impl;
pub mod session;
