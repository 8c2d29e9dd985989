pub mod pqxdh_impl;
