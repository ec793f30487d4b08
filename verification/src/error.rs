use vstd::prelude::*;

verus! {

/// The two failure conditions of the cipher: a master key that is not
/// exactly 16 bytes, and a block that is not exactly 16 bytes (scalar
/// transform) or 64 bytes (batch transform).
#[derive(Clone, Copy, Debug, PartialEq, Eq, Structural)]
pub enum Sm4Error {
    InvalidKeySize,
    InvalidBlockSize,
}

} // verus!
