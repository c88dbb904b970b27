//! Signature validators and the values they produce.

pub mod common;
pub mod openssl;
