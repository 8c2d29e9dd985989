pub mod server_impl;
