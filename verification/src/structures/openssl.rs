//! The header that OpenSSL writes in front of salted, password-encrypted data.
//!
//! Layout, thirteen bytes in all:
//!
//! | bytes   | field                                   |
//! |---------|-----------------------------------------|
//! | 0 .. 8  | the ASCII tag `Salted__`                |
//! | 8       | mode indicator                          |
//! | 9 .. 13 | salt, an unsigned big-endian integer    |

use vstd::prelude::*;

verus! {

/// Number of bytes in the `Salted__` tag.
pub const MAGIC_SIZE: usize = 8;

/// Number of bytes in a complete header.
pub const HEADER_SIZE: usize = 13;

/// Why a byte window does not hold a header.
#[derive(Clone, Copy, Debug, PartialEq, Eq, Structural)]
pub enum ParseError {
    /// The window ends before the header does.
    Truncated,
    /// The window is long enough, but does not open with the tag.
    Malformed,
}

/// The decoded fields of a header.
#[derive(Clone, Copy, Debug, PartialEq, Eq, Structural)]
pub struct OpenSSLCryptHeader {
    /// The byte between the tag and the salt.
    pub mode: u8,
    /// The salt, which also identifies known false positives.
    pub salt: u32,
}

/// The tag `Salted__`, byte by byte.
pub open spec fn spec_magic() -> Seq<u8> {
    seq![0x53u8, 0x61u8, 0x6Cu8, 0x74u8, 0x65u8, 0x64u8, 0x5Fu8, 0x5Fu8]
}

/// The unsigned integer whose big-endian encoding is `b0 b1 b2 b3`.
pub open spec fn spec_u32_from_be_bytes(b0: u8, b1: u8, b2: u8, b3: u8) -> u32 {
    (b0 * 0x100_0000 + b1 * 0x1_0000 + b2 * 0x100 + b3) as u32
}

/// Whether `data` opens with the tag.
pub open spec fn spec_starts_with_magic(data: Seq<u8>) -> bool {
    data.len() >= MAGIC_SIZE && data.subrange(0, MAGIC_SIZE as int) == spec_magic()
}

/// What parsing the window `data` yields.
pub open spec fn spec_parse_openssl_crypt_header(data: Seq<u8>) -> Result<
    OpenSSLCryptHeader,
    ParseError,
> {
    if data.len() < HEADER_SIZE {
        Err(ParseError::Truncated)
    } else if !spec_starts_with_magic(data) {
        Err(ParseError::Malformed)
    } else {
        Ok(
            OpenSSLCryptHeader {
                mode: data[8],
                salt: spec_u32_from_be_bytes(data[9], data[10], data[11], data[12]),
            },
        )
    }
}

/// Parsing reads the header and nothing behind it: two windows that are long
/// enough and agree on their first [`HEADER_SIZE`] bytes parse alike.
pub proof fn lemma_parse_reads_only_the_header(first: Seq<u8>, second: Seq<u8>)
    requires
        first.len() >= HEADER_SIZE,
        second.len() >= HEADER_SIZE,
        first.subrange(0, HEADER_SIZE as int) == second.subrange(0, HEADER_SIZE as int),
    ensures
        spec_parse_openssl_crypt_header(first) == spec_parse_openssl_crypt_header(second),
{
    assert forall|i: int| 0 <= i < HEADER_SIZE implies first[i] == second[i] by {
        assert(first[i] == first.subrange(0, HEADER_SIZE as int)[i]);
        assert(second[i] == second.subrange(0, HEADER_SIZE as int)[i]);
    }
    assert(first.subrange(0, MAGIC_SIZE as int) =~= second.subrange(0, MAGIC_SIZE as int));
}

/// The tag `Salted__`.
pub fn openssl_magic() -> (magic: [u8; 8])
    ensures
        magic@ == spec_magic(),
{
    let magic: [u8; 8] = [0x53, 0x61, 0x6C, 0x74, 0x65, 0x64, 0x5F, 0x5F];
    assert(magic@ =~= spec_magic());
    magic
}

/// Decodes four bytes as an unsigned big-endian integer.
pub fn u32_from_be_bytes(b0: u8, b1: u8, b2: u8, b3: u8) -> (value: u32)
    ensures
        value == spec_u32_from_be_bytes(b0, b1, b2, b3),
        value == b0 * 0x100_0000 + b1 * 0x1_0000 + b2 * 0x100 + b3,
{
    let high: u32 = b0 as u32 * 0x100_0000 + b1 as u32 * 0x1_0000;
    let low: u32 = b2 as u32 * 0x100 + b3 as u32;
    high + low
}

/// Tells whether `data` opens with the tag.
pub fn starts_with_magic(data: &[u8]) -> (found: bool)
    ensures
        found == spec_starts_with_magic(data@),
{
    if data.len() < MAGIC_SIZE {
        return false;
    }
    let magic = openssl_magic();
    let mut i: usize = 0;
    while i < MAGIC_SIZE
        invariant
            i <= MAGIC_SIZE <= data.len(),
            magic@ == spec_magic(),
            forall|k: int| 0 <= k < i ==> data@[k] == spec_magic()[k],
        decreases MAGIC_SIZE - i,
    {
        if data[i] != magic[i] {
            assert(data@.subrange(0, MAGIC_SIZE as int)[i as int] != spec_magic()[i as int]);
            return false;
        }
        i += 1;
    }
    assert(data@.subrange(0, MAGIC_SIZE as int) =~= spec_magic());
    true
}

/// Reads a header from the start of `data`.
///
/// Fails with [`ParseError::Truncated`] when `data` holds fewer than
/// [`HEADER_SIZE`] bytes, and with [`ParseError::Malformed`] when it holds
/// enough but does not open with the tag. Otherwise the mode is the byte after
/// the tag and the salt is the big-endian value of the four bytes after that;
/// whatever follows the header is ignored.
pub fn parse_openssl_crypt_header(data: &[u8]) -> (parsed: Result<OpenSSLCryptHeader, ParseError>)
    ensures
        parsed == spec_parse_openssl_crypt_header(data@),
        parsed == Err::<OpenSSLCryptHeader, ParseError>(ParseError::Truncated) <==> data@.len()
            < HEADER_SIZE,
        parsed == Err::<OpenSSLCryptHeader, ParseError>(ParseError::Malformed) <==> data@.len()
            >= HEADER_SIZE && !spec_starts_with_magic(data@),
        parsed is Ok <==> data@.len() >= HEADER_SIZE && spec_starts_with_magic(data@),
{
    if data.len() < HEADER_SIZE {
        return Err(ParseError::Truncated);
    }
    if !starts_with_magic(data) {
        return Err(ParseError::Malformed);
    }
    let salt = u32_from_be_bytes(data[9], data[10], data[11], data[12]);
    Ok(OpenSSLCryptHeader { mode: data[8], salt })
}

} // verus!
