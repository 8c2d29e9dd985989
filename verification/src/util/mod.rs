pub mod constants;
pub mod keys;
pub mod messages;
pub mod helper_func;
pub mod libcrux_wrap;
pub mod encrypt_decrypt;
pub mod expand_pqxdh_keys;
pub mod user_map;
