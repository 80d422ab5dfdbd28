pub mod config;
pub mod kem;
pub mod probe;
pub mod store;
pub mod stream;
