//! Decoders of fixed-layout binary headers.

pub mod openssl;
