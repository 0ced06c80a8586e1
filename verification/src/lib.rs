//! Integrity-digest handling for HTTP-style request pipelines: a registry of
//! digest algorithms, an encoder for computed hash values, and the signing and
//! verification logic for the `digest` request header.

use vstd::prelude::*;

pub mod body;
pub mod chars;
pub mod digest;
pub mod error;
pub mod primitives;
pub mod sign;
pub mod verify;

pub use chars::u32_to_dec_string;
pub use digest::{Digest, HashView, encode_hash, resolve_name};
pub use error::{Error, ErrorView};
pub use sign::{SignerLayer, compute_digest_header, sign_digest_header};
pub use body::extend_body_buffer;
pub use verify::{DigestEntry, VerifierLayer, parse_digest_header, verify_digest_header, verify_entries};

verus! {

/// Default capacity of the concurrency guard placed in front of a wrapped
/// downstream stage.
pub const BUFFER_SIZE: usize = 25;

} // verus!
