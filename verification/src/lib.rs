//! SM4 block cipher: key schedule, single-block encrypt/decrypt, and a
//! four-block batch transform, with machine-checked functional contracts.

pub mod block;
pub mod cipher;
pub mod error;
pub mod schedule;
pub mod transform;

pub use cipher::Sm4Cipher;
pub use error::Sm4Error;
