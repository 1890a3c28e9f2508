pub mod common;
pub mod error;
pub mod protocol;
pub mod socks;
pub mod socks_laws;
pub mod stream;
pub mod text;

