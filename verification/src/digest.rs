//! The digest algorithm registry: identifier resolution, hashing, and the
//! canonical text encoding of hash values.

use vstd::prelude::*;
use crate::chars::{
    lower, dec_str_of, comma_free, eq_ignore_case, u32_to_dec_string, lemma_dec_str_chars,
};
use crate::error::{Error, ErrorView};
use crate::primitives::{
    crc32c_of, sha256_of, sha512_of, adler32_of, md5_of, sha1_of, base64_of, crc32c_hash,
    sha256_hash, sha512_hash, adler32_hash, md5_hash, sha1_hash, base64_encode,
};

verus! {

/// Mathematical image of a [`Hash`].
pub enum HashView {
    /// A digest that is a byte sequence.
    Bytes(Seq<u8>),
    /// A digest that is a 32-bit checksum.
    Number(u32),
}

/// Representation of a hash produced by a digest.
pub enum Hash {
    /// Digest produced a bunch of bytes.
    Bytes(Vec<u8>),
    /// Digest produced an unsigned 32-bit integer.
    Number(u32),
}

impl View for Hash {
    type V = HashView;

    open spec fn view(&self) -> HashView {
        match self {
            Hash::Bytes(bytes) => HashView::Bytes(bytes@),
            Hash::Number(num) => HashView::Number(*num),
        }
    }
}

/// Canonical header text of a hash value: standard base64 for byte digests,
/// ASCII decimal for 32-bit checksums.
pub open spec fn encode_hash(h: HashView) -> Seq<char> {
    match h {
        HashView::Bytes(bytes) => base64_of(bytes),
        HashView::Number(num) => dec_str_of(num as nat),
    }
}

impl Hash {
    /// Encode the hash into its digest header representation.
    pub fn encode(self) -> (r: String)
        ensures
            r@ == encode_hash(self@),
            comma_free(r@),
    {
        match self {
            Hash::Bytes(bytes) => base64_encode(bytes.as_slice()),
            Hash::Number(num) => {
                proof {
                    lemma_dec_str_chars(num as nat);
                }
                u32_to_dec_string(num)
            },
        }
    }
}

impl From<Vec<u8>> for Hash {
    fn from(bytes: Vec<u8>) -> Self {
        Hash::Bytes(bytes)
    }
}

impl vstd::std_specs::convert::FromSpecImpl<Vec<u8>> for Hash {
    open spec fn obeys_from_spec() -> bool {
        true
    }

    open spec fn from_spec(bytes: Vec<u8>) -> Hash {
        Hash::Bytes(bytes)
    }
}

impl From<u32> for Hash {
    fn from(number: u32) -> Self {
        Hash::Number(number)
    }
}

impl vstd::std_specs::convert::FromSpecImpl<u32> for Hash {
    open spec fn obeys_from_spec() -> bool {
        true
    }

    open spec fn from_spec(number: u32) -> Hash {
        Hash::Number(number)
    }
}

/// Digests.
#[derive(Clone, Debug, PartialEq, PartialOrd)]
pub enum Digest {
    /// CRC-32-C
    Crc32c,
    /// SHA-256
    Sha256,
    /// SHA-512
    Sha512,
    /// Unixcksum
    Unixcksum,
    /// Unixsum
    Unixsum,
    /// Adler32 (legacy)
    Adler32,
    /// MD5 (legacy)
    Md5,
    /// SHA-1 (legacy)
    Sha1,
}

/// Case-insensitive resolution of an algorithm identifier. The legacy set is
/// only matched when `legacy` is set; a disabled legacy name resolves exactly
/// as an unknown one.
pub open spec fn resolve_name(ident: Seq<char>, legacy: bool) -> Option<Digest> {
    let l = lower(ident);
    if l == "crc32c"@ {
        Some(Digest::Crc32c)
    } else if l == "id-sha-256"@ || l == "sha-256"@ {
        Some(Digest::Sha256)
    } else if l == "id-sha-512"@ || l == "sha-512"@ {
        Some(Digest::Sha512)
    } else if l == "unixcksum"@ {
        Some(Digest::Unixcksum)
    } else if l == "unixsum"@ {
        Some(Digest::Unixsum)
    } else if legacy && l == "adler32"@ {
        Some(Digest::Adler32)
    } else if legacy && l == "md5"@ {
        Some(Digest::Md5)
    } else if legacy && l == "sha"@ {
        Some(Digest::Sha1)
    } else {
        None
    }
}

impl Digest {
    /// Whether the variant belongs to the legacy set.
    pub open spec fn is_legacy(self) -> bool {
        self is Adler32 || self is Md5 || self is Sha1
    }

    /// Whether the variant is resolvable under the given legacy switch.
    pub open spec fn enabled(self, legacy: bool) -> bool {
        legacy || !self.is_legacy()
    }

    /// Whether the registry can hash with this variant.
    pub open spec fn hashable(self) -> bool {
        !(self is Unixcksum || self is Unixsum)
    }

    /// Canonical name emitted in header entries.
    pub open spec fn spec_name(self) -> Seq<char> {
        match self {
            Digest::Crc32c => "crc32c"@,
            Digest::Sha256 => "sha-256"@,
            Digest::Sha512 => "sha-512"@,
            Digest::Unixcksum => "unixcksum"@,
            Digest::Unixsum => "unixsum"@,
            Digest::Adler32 => "adler32"@,
            Digest::Md5 => "md5"@,
            Digest::Sha1 => "sha"@,
        }
    }

    /// The hash value this variant computes over a body.
    pub open spec fn spec_hash(self, b: Seq<u8>) -> HashView
        recommends
            self.hashable(),
    {
        match self {
            Digest::Crc32c => HashView::Number(crc32c_of(b)),
            Digest::Sha256 => HashView::Bytes(sha256_of(b)),
            Digest::Sha512 => HashView::Bytes(sha512_of(b)),
            Digest::Adler32 => HashView::Number(adler32_of(b)),
            Digest::Md5 => HashView::Bytes(md5_of(b)),
            Digest::Sha1 => HashView::Bytes(sha1_of(b)),
            Digest::Unixcksum => arbitrary(),
            Digest::Unixsum => arbitrary(),
        }
    }

    /// The encoded header text of the hash this variant computes over a body.
    pub open spec fn spec_encoded(self, b: Seq<u8>) -> Seq<char>
        recommends
            self.hashable(),
    {
        encode_hash(self.spec_hash(b))
    }

    /// Attempt to find a baseline digest variant that matches the specified
    /// identifier; legacy names are treated as unknown.
    pub fn from_str(ident: &str) -> (r: Option<Self>)
        ensures
            r == resolve_name(ident@, false),
    {
        Self::from_str_with_legacy(ident, false)
    }

    /// Attempt to find a digest variant that matches the specified identifier,
    /// with the legacy set enabled or disabled by configuration.
    pub fn from_str_with_legacy(ident: &str, legacy: bool) -> (r: Option<Self>)
        ensures
            r == resolve_name(ident@, legacy),
    {
        proof {
            lemma_lowered_names();
        }
        if eq_ignore_case(ident, "crc32c") {
            Some(Digest::Crc32c)
        } else if eq_ignore_case(ident, "id-sha-256") || eq_ignore_case(ident, "sha-256") {
            Some(Digest::Sha256)
        } else if eq_ignore_case(ident, "id-sha-512") || eq_ignore_case(ident, "sha-512") {
            Some(Digest::Sha512)
        } else if eq_ignore_case(ident, "unixcksum") {
            Some(Digest::Unixcksum)
        } else if eq_ignore_case(ident, "unixsum") {
            Some(Digest::Unixsum)
        } else if legacy && eq_ignore_case(ident, "adler32") {
            Some(Digest::Adler32)
        } else if legacy && eq_ignore_case(ident, "md5") {
            Some(Digest::Md5)
        } else if legacy && eq_ignore_case(ident, "sha") {
            Some(Digest::Sha1)
        } else {
            None
        }
    }

    /// Hash the data with the digest.
    pub fn hash(&self, data: &[u8]) -> (r: Result<Hash, Error>)
        ensures
            r is Ok <==> self.hashable(),
            r matches Ok(h) ==> h@ == self.spec_hash(data@),
            r matches Err(e) ==> e@ == ErrorView::UnsupportedDigest,
    {
        match self {
            Digest::Crc32c => Ok(Hash::Number(crc32c_hash(data))),
            Digest::Sha256 => Ok(Hash::Bytes(sha256_hash(data))),
            Digest::Sha512 => Ok(Hash::Bytes(sha512_hash(data))),
            Digest::Adler32 => Ok(Hash::Number(adler32_hash(data))),
            Digest::Md5 => Ok(Hash::Bytes(md5_hash(data))),
            Digest::Sha1 => Ok(Hash::Bytes(sha1_hash(data))),
            Digest::Unixcksum | Digest::Unixsum => Err(Error::UnsupportedDigest),
        }
    }

    /// Get the name of the digest.
    pub fn name(&self) -> (r: &'static str)
        ensures
            r@ == self.spec_name(),
    {
        match self {
            Digest::Crc32c => "crc32c",
            Digest::Sha256 => "sha-256",
            Digest::Sha512 => "sha-512",
            Digest::Unixcksum => "unixcksum",
            Digest::Unixsum => "unixsum",
            Digest::Adler32 => "adler32",
            Digest::Md5 => "md5",
            Digest::Sha1 => "sha",
        }
    }
}

/// The recognized identifiers are already lower case, so case folding leaves
/// each of them unchanged.
pub proof fn lemma_lowered_names()
    ensures
        lower("crc32c"@) == "crc32c"@,
        lower("id-sha-256"@) == "id-sha-256"@,
        lower("sha-256"@) == "sha-256"@,
        lower("id-sha-512"@) == "id-sha-512"@,
        lower("sha-512"@) == "sha-512"@,
        lower("unixcksum"@) == "unixcksum"@,
        lower("unixsum"@) == "unixsum"@,
        lower("adler32"@) == "adler32"@,
        lower("md5"@) == "md5"@,
        lower("sha"@) == "sha"@,
{
    reveal_strlit("crc32c");
    reveal_strlit("id-sha-256");
    reveal_strlit("sha-256");
    reveal_strlit("id-sha-512");
    reveal_strlit("sha-512");
    reveal_strlit("unixcksum");
    reveal_strlit("unixsum");
    reveal_strlit("adler32");
    reveal_strlit("md5");
    reveal_strlit("sha");
    assert(lower("crc32c"@) =~= "crc32c"@);
    assert(lower("id-sha-256"@) =~= "id-sha-256"@);
    assert(lower("sha-256"@) =~= "sha-256"@);
    assert(lower("id-sha-512"@) =~= "id-sha-512"@);
    assert(lower("sha-512"@) =~= "sha-512"@);
    assert(lower("unixcksum"@) =~= "unixcksum"@);
    assert(lower("unixsum"@) =~= "unixsum"@);
    assert(lower("adler32"@) =~= "adler32"@);
    assert(lower("md5"@) =~= "md5"@);
    assert(lower("sha"@) =~= "sha"@);
}

/// Resolving the canonical name of an enabled digest yields that digest back.
pub proof fn lemma_name_resolves(d: Digest, legacy: bool)
    requires
        d.enabled(legacy),
    ensures
        resolve_name(d.spec_name(), legacy) == Some(d),
{
    lemma_lowered_names();
    reveal_strlit("crc32c");
    reveal_strlit("id-sha-256");
    reveal_strlit("sha-256");
    reveal_strlit("id-sha-512");
    reveal_strlit("sha-512");
    reveal_strlit("unixcksum");
    reveal_strlit("unixsum");
    reveal_strlit("adler32");
    reveal_strlit("md5");
    reveal_strlit("sha");
    match d {
        Digest::Crc32c => {
            assert(resolve_name("crc32c"@, legacy) == Some(Digest::Crc32c));
        },
        Digest::Sha256 => {
            assert(resolve_name("sha-256"@, legacy) == Some(Digest::Sha256));
        },
        Digest::Sha512 => {
            assert("sha-512"@[4] != "sha-256"@[4]);
            assert(resolve_name("sha-512"@, legacy) == Some(Digest::Sha512));
        },
        Digest::Unixcksum => {
            assert(resolve_name("unixcksum"@, legacy) == Some(Digest::Unixcksum));
        },
        Digest::Unixsum => {
            assert("unixsum"@[0] != "sha-256"@[0]);
            assert("unixsum"@[0] != "sha-512"@[0]);
            assert(resolve_name("unixsum"@, legacy) == Some(Digest::Unixsum));
        },
        Digest::Adler32 => {
            assert("adler32"@[0] != "sha-256"@[0]);
            assert("adler32"@[0] != "sha-512"@[0]);
            assert("adler32"@[0] != "unixsum"@[0]);
            assert(resolve_name("adler32"@, legacy) == Some(Digest::Adler32));
        },
        Digest::Md5 => {
            assert(resolve_name("md5"@, legacy) == Some(Digest::Md5));
        },
        Digest::Sha1 => {
            assert("sha"@[0] != "md5"@[0]);
            assert(resolve_name("sha"@, legacy) == Some(Digest::Sha1));
        },
    }
}

/// Canonical digest names are non-empty and hold neither the entry separator
/// nor the name-value separator of the header syntax.
pub proof fn lemma_name_wire(d: Digest)
    ensures
        d.spec_name().len() >= 1,
        forall|i: int| 0 <= i < d.spec_name().len() ==> #[trigger] d.spec_name()[i] != ','
            && d.spec_name()[i] != '=',
{
    reveal_strlit("crc32c");
    reveal_strlit("id-sha-256");
    reveal_strlit("sha-256");
    reveal_strlit("id-sha-512");
    reveal_strlit("sha-512");
    reveal_strlit("unixcksum");
    reveal_strlit("unixsum");
    reveal_strlit("adler32");
    reveal_strlit("md5");
    reveal_strlit("sha");
}

} // verus!
