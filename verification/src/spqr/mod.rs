pub mod spqr_impl;
