//! Validation of candidate OpenSSL salted-encryption headers.

use crate::hex::{append_upper_hex, lemma_upper_hex_denotes, spec_upper_hex, spec_upper_hex_value};
use crate::signatures::common::{Confidence, SignatureError, SignatureResult, SignatureResultView};
use crate::structures::openssl::{
    lemma_parse_reads_only_the_header, openssl_magic, parse_openssl_crypt_header, spec_magic,
    spec_parse_openssl_crypt_header, HEADER_SIZE,
};
use vstd::prelude::*;

verus! {

/// Human readable description
pub const DESCRIPTION: &'static str = "OpenSSL encryption";

/// The salt that the bytes `-%-2` decode to. They are commonly found behind
/// the tag in the `openssl` binary itself, which holds no encrypted data.
pub const OPENSSL_BINARY_SALT: u32 = 0x2D25_2D32;

/// The salts that mark a well-formed header as a known false positive.
pub open spec fn spec_known_false_positive_salts() -> Seq<u32> {
    seq![OPENSSL_BINARY_SALT]
}

/// The bytes of `data` from `offset` to its end; empty when `offset` lies
/// beyond the end.
pub open spec fn spec_window(data: Seq<u8>, offset: usize) -> Seq<u8> {
    if offset <= data.len() {
        data.subrange(offset as int, data.len() as int)
    } else {
        Seq::empty()
    }
}

/// The description of a match whose header carries `salt`: the format's label,
/// then the salt in uppercase hexadecimal behind the radix marker `0x`, with
/// no leading zeros.
pub open spec fn spec_description(salt: u32) -> Seq<char> {
    DESCRIPTION@ + ", salt: 0x"@ + spec_upper_hex(salt as nat)
}

/// The confidence that a match at `offset` earns: a header at the very start
/// of the data is more likely the whole file than a coincidence inside one.
pub open spec fn spec_confidence(offset: usize) -> Confidence {
    if offset == 0 {
        Confidence::Medium
    } else {
        Confidence::Low
    }
}

/// What validating the candidate at `offset` of `data` yields when the salts
/// in `excluded` are taken for false positives: `None` for a rejection.
pub open spec fn spec_openssl_crypt_excluding(
    data: Seq<u8>,
    offset: usize,
    excluded: Seq<u32>,
) -> Option<SignatureResultView> {
    match spec_parse_openssl_crypt_header(spec_window(data, offset)) {
        Ok(header) => if excluded.contains(header.salt) {
            None
        } else {
            Some(
                SignatureResultView {
                    offset,
                    description: spec_description(header.salt),
                    confidence: spec_confidence(offset),
                },
            )
        },
        Err(_) => None,
    }
}

/// What validating the candidate at `offset` of `data` yields: `None` for a
/// rejection.
pub open spec fn spec_openssl_crypt(data: Seq<u8>, offset: usize) -> Option<SignatureResultView> {
    spec_openssl_crypt_excluding(data, offset, spec_known_false_positive_salts())
}

/// The outcome of a validation as a model value: `None` for a rejection.
pub open spec fn spec_outcome(outcome: Result<SignatureResult, SignatureError>) -> Option<
    SignatureResultView,
> {
    match outcome {
        Ok(result) => Some(result@),
        Err(_) => None,
    }
}

/// OpenSSL crypto magic
pub fn openssl_crypt_magic() -> (magic: Vec<Vec<u8>>)
    ensures
        magic@.len() == 1,
        magic@[0]@ == spec_magic(),
{
    let tag = openssl_magic();
    vec![vstd::slice::slice_to_vec(tag.as_slice())]
}

/// The salts that mark a well-formed header as a known false positive.
pub fn known_false_positive_salts() -> (salts: Vec<u32>)
    ensures
        salts@ == spec_known_false_positive_salts(),
{
    let salts: Vec<u32> = vec![OPENSSL_BINARY_SALT];
    assert(salts@ =~= spec_known_false_positive_salts());
    salts
}

/// Tells whether `salt` occurs in `salts`.
pub fn contains_salt(salts: &[u32], salt: u32) -> (found: bool)
    ensures
        found == salts@.contains(salt),
{
    let mut i: usize = 0;
    while i < salts.len()
        invariant
            i <= salts.len(),
            forall|k: int| 0 <= k < i ==> salts@[k] != salt,
        decreases salts.len() - i,
    {
        if salts[i] == salt {
            return true;
        }
        i += 1;
    }
    false
}

/// Describes a match whose header carries `salt`.
pub fn describe(salt: u32) -> (description: String)
    ensures
        description@ == spec_description(salt),
{
    let mut description = DESCRIPTION.to_owned();
    description.append(", salt: 0x");
    append_upper_hex(&mut description, salt as u64);
    description
}

/// Validate an openssl signature, with `excluded` as the salts of known false
/// positives.
///
/// The candidate is the header that starts at `offset` of `file_data`. It is
/// turned down when fewer than [`HEADER_SIZE`] bytes remain there, when they do
/// not open with the tag, or when the salt occurs in `excluded`. Otherwise the
/// result carries `offset` unchanged, the description for the salt, and
/// `Medium` confidence at offset zero, `Low` anywhere else.
pub fn openssl_crypt_parser_excluding(file_data: &[u8], offset: usize, excluded: &[u32]) -> (outcome:
    Result<SignatureResult, SignatureError>)
    ensures
        spec_outcome(outcome) == spec_openssl_crypt_excluding(file_data@, offset, excluded@),
        file_data@.len() < offset + HEADER_SIZE ==> outcome is Err,
        match spec_parse_openssl_crypt_header(spec_window(file_data@, offset)) {
            Err(_) => outcome is Err,
            Ok(header) => if excluded@.contains(header.salt) {
                outcome is Err
            } else {
                &&& outcome matches Ok(result)
                &&& result.offset == offset
                &&& result.description@ == spec_description(header.salt)
                &&& offset == 0 ==> result.confidence == Confidence::Medium
                &&& offset > 0 ==> result.confidence == Confidence::Low
            },
        },
{
    if offset > file_data.len() {
        return Err(SignatureError);
    }
    let window = vstd::slice::slice_subrange(file_data, offset, file_data.len());
    match parse_openssl_crypt_header(window) {
        Ok(header) => {
            if contains_salt(excluded, header.salt) {
                Err(SignatureError)
            } else {
                let confidence = if offset == 0 {
                    Confidence::Medium
                } else {
                    Confidence::Low
                };
                Ok(SignatureResult { offset, description: describe(header.salt), confidence })
            }
        },
        Err(_) => Err(SignatureError),
    }
}

/// Validate an openssl signature
///
/// As [`openssl_crypt_parser_excluding`], with the salts of
/// [`known_false_positive_salts`] excluded.
pub fn openssl_crypt_parser(file_data: &[u8], offset: usize) -> (outcome: Result<
    SignatureResult,
    SignatureError,
>)
    ensures
        spec_outcome(outcome) == spec_openssl_crypt(file_data@, offset),
        file_data@.len() < offset + HEADER_SIZE ==> outcome is Err,
        match spec_parse_openssl_crypt_header(spec_window(file_data@, offset)) {
            Err(_) => outcome is Err,
            Ok(header) => if spec_known_false_positive_salts().contains(header.salt) {
                outcome is Err
            } else {
                &&& outcome matches Ok(result)
                &&& result.offset == offset
                &&& result.description@ == spec_description(header.salt)
                &&& offset == 0 ==> result.confidence == Confidence::Medium
                &&& offset > 0 ==> result.confidence == Confidence::Low
            },
        },
{
    let excluded = known_false_positive_salts();
    openssl_crypt_parser_excluding(file_data, offset, excluded.as_slice())
}

/// Validation is a function of its inputs: two outcomes that
/// [`openssl_crypt_parser_excluding`] may give for the same data, offset and
/// exclusions agree on acceptance and, where they accept, on every field.
pub proof fn lemma_openssl_crypt_parser_deterministic(
    file_data: Seq<u8>,
    offset: usize,
    excluded: Seq<u32>,
    first: Result<SignatureResult, SignatureError>,
    second: Result<SignatureResult, SignatureError>,
)
    requires
        spec_outcome(first) == spec_openssl_crypt_excluding(file_data, offset, excluded),
        spec_outcome(second) == spec_openssl_crypt_excluding(file_data, offset, excluded),
    ensures
        first is Ok <==> second is Ok,
        first matches Ok(a) ==> second matches Ok(b) && a.offset == b.offset && a.description@
            == b.description@ && a.confidence == b.confidence,
{
}

/// Validation looks at the header and nothing else in the data: two buffers
/// that hold the same [`HEADER_SIZE`] bytes at `offset` are judged alike
/// there, whatever surrounds those bytes.
pub proof fn lemma_validation_reads_only_the_header(
    first: Seq<u8>,
    second: Seq<u8>,
    offset: usize,
    excluded: Seq<u32>,
)
    requires
        offset + HEADER_SIZE <= first.len(),
        offset + HEADER_SIZE <= second.len(),
        first.subrange(offset as int, offset + HEADER_SIZE) == second.subrange(
            offset as int,
            offset + HEADER_SIZE,
        ),
    ensures
        spec_openssl_crypt_excluding(first, offset, excluded) == spec_openssl_crypt_excluding(
            second,
            offset,
            excluded,
        ),
{
    let first_window = spec_window(first, offset);
    let second_window = spec_window(second, offset);
    assert(first_window.subrange(0, HEADER_SIZE as int) =~= first.subrange(
        offset as int,
        offset + HEADER_SIZE,
    ));
    assert(second_window.subrange(0, HEADER_SIZE as int) =~= second.subrange(
        offset as int,
        offset + HEADER_SIZE,
    ));
    lemma_parse_reads_only_the_header(first_window, second_window);
}

/// The description names the salt: two salts with the same description are
/// the same salt.
pub proof fn lemma_description_identifies_salt(a: u32, b: u32)
    requires
        spec_description(a) == spec_description(b),
    ensures
        a == b,
{
    let label = DESCRIPTION@ + ", salt: 0x"@;
    let numeral_a = spec_upper_hex(a as nat);
    let numeral_b = spec_upper_hex(b as nat);
    assert(numeral_a =~= (label + numeral_a).subrange(
        label.len() as int,
        (label + numeral_a).len() as int,
    ));
    assert(numeral_b =~= (label + numeral_b).subrange(
        label.len() as int,
        (label + numeral_b).len() as int,
    ));
    lemma_upper_hex_denotes(a as nat);
    lemma_upper_hex_denotes(b as nat);
    assert(spec_upper_hex_value(numeral_a) == spec_upper_hex_value(numeral_b));
}

} // verus!
