//! Trusted boundary to the outside hashing and encoding crates.
//!
//! Each digest primitive is a pure function of its input bytes; its result is
//! given a name here, and the rest of the library reasons over those names.

use vstd::prelude::*;
use crate::chars::comma_free;

verus! {

/// CRC-32C (Castagnoli) checksum of a byte sequence.
pub uninterp spec fn crc32c_of(b: Seq<u8>) -> u32;

/// SHA-256 digest of a byte sequence.
pub uninterp spec fn sha256_of(b: Seq<u8>) -> Seq<u8>;

/// SHA-512 digest of a byte sequence.
pub uninterp spec fn sha512_of(b: Seq<u8>) -> Seq<u8>;

/// Adler-32 checksum of a byte sequence.
pub uninterp spec fn adler32_of(b: Seq<u8>) -> u32;

/// MD5 digest of a byte sequence.
pub uninterp spec fn md5_of(b: Seq<u8>) -> Seq<u8>;

/// SHA-1 digest of a byte sequence.
pub uninterp spec fn sha1_of(b: Seq<u8>) -> Seq<u8>;

/// Standard base64 text of a byte sequence, with padding.
pub uninterp spec fn base64_of(b: Seq<u8>) -> Seq<char>;

/// Relies on `crc32c::crc32c`: the CRC-32C checksum of the full slice, a
/// function of the bytes alone.
#[verifier::external_body]
pub(crate) fn crc32c_hash(data: &[u8]) -> (r: u32)
    ensures
        r == crc32c_of(data@),
{
    crc32c::crc32c(data)
}

/// Relies on `sha2::Sha256::digest`: the 256-bit digest of the slice, a
/// function of the bytes alone.
#[verifier::external_body]
pub(crate) fn sha256_hash(data: &[u8]) -> (r: Vec<u8>)
    ensures
        r@ == sha256_of(data@),
{
    <sha2::Sha256 as sha2::Digest>::digest(data).to_vec()
}

/// Relies on `sha2::Sha512::digest`: the 512-bit digest of the slice, a
/// function of the bytes alone.
#[verifier::external_body]
pub(crate) fn sha512_hash(data: &[u8]) -> (r: Vec<u8>)
    ensures
        r@ == sha512_of(data@),
{
    <sha2::Sha512 as sha2::Digest>::digest(data).to_vec()
}

/// Relies on `adler32::adler32` over an in-memory reader: the checksum of the
/// bytes; reading from a slice cannot fail.
#[verifier::external_body]
pub(crate) fn adler32_hash(data: &[u8]) -> (r: u32)
    ensures
        r == adler32_of(data@),
{
    adler32::adler32(std::io::Cursor::new(data)).unwrap()
}

/// Relies on `md5::Md5::digest`: the 128-bit digest of the slice, a function
/// of the bytes alone.
#[verifier::external_body]
pub(crate) fn md5_hash(data: &[u8]) -> (r: Vec<u8>)
    ensures
        r@ == md5_of(data@),
{
    <md5::Md5 as md5::Digest>::digest(data).to_vec()
}

/// Relies on `sha1::Sha1::digest`: the 160-bit digest of the slice, a function
/// of the bytes alone.
#[verifier::external_body]
pub(crate) fn sha1_hash(data: &[u8]) -> (r: Vec<u8>)
    ensures
        r@ == sha1_of(data@),
{
    <sha1::Sha1 as sha1::Digest>::digest(data).to_vec()
}

/// Relies on `base64::encode`: standard base64 with padding, a function of the
/// bytes alone, drawn from an alphabet (`A`-`Z`, `a`-`z`, `0`-`9`, `+`, `/`,
/// `=`) that holds no comma.
#[verifier::external_body]
pub(crate) fn base64_encode(data: &[u8]) -> (r: String)
    ensures
        r@ == base64_of(data@),
        comma_free(r@),
{
    base64::encode(data)
}

} // verus!
