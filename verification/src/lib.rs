//! Recognition of OpenSSL salted-encryption headers inside arbitrary binary data.
//!
//! A scanner that has found the eight-byte `Salted__` tag at some offset of a
//! buffer hands the buffer and the offset to
//! [`signatures::openssl::openssl_crypt_parser`], which decodes the header that
//! starts there, suppresses known false positives and grades the match.

pub mod hex;
pub mod signatures;
pub mod structures;
