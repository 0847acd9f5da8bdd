//! Signed transactions: their wire format, the recovery of the signer and
//! the reasons for which a transaction is turned away.

pub mod big_endian;
pub mod codec;
pub mod crypto;
pub mod error;
pub mod primitives;
pub mod rlp;
pub mod signature;
pub mod signed;
pub mod text;
pub mod transaction;
