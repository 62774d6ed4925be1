//! Client-side transport for a tensor inference protocol: a binary tensor
//! codec and the decision logic of a self-healing connection pool.

pub mod channel;
pub mod codec;
pub mod config;
pub mod error;
pub mod input;
pub mod output;
pub mod tensor;
pub mod types;
