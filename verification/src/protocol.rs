pub mod aes;
pub mod block;
