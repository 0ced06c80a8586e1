//! The signer stage: computing the digest header value for a materialized
//! body, and the signer configuration.

use vstd::prelude::*;
use crate::BUFFER_SIZE;
use crate::chars::{comma_free, push_comma};
use crate::digest::Digest;
use crate::error::{Error, ErrorView};
use crate::verify::{verify_spec, lemma_round_trip};

verus! {

/// One header entry: canonical name, `=`, encoded hash over the body.
pub open spec fn entry_spec(d: Digest, b: Seq<u8>) -> Seq<char> {
    d.spec_name() + "="@ + d.spec_encoded(b)
}

/// The full header value: one entry per digest, in the given order, joined
/// with commas.
pub open spec fn header_value_spec(ds: Seq<Digest>, b: Seq<u8>) -> Seq<char>
    decreases ds.len(),
{
    if ds.len() == 0 {
        Seq::empty()
    } else if ds.len() == 1 {
        entry_spec(ds[0], b)
    } else {
        entry_spec(ds[0], b) + seq![','] + header_value_spec(ds.drop_first(), b)
    }
}

/// Whether every digest of the list can be hashed with.
pub open spec fn all_hashable(ds: Seq<Digest>) -> bool {
    forall|i: int| 0 <= i < ds.len() ==> (#[trigger] ds[i]).hashable()
}

/// Whether every digest of the list is resolvable under the legacy switch.
pub open spec fn all_enabled(ds: Seq<Digest>, legacy: bool) -> bool {
    forall|i: int| 0 <= i < ds.len() ==> (#[trigger] ds[i]).enabled(legacy)
}

/// A freshly computed header value, or the failure of computing one.
pub open spec fn fresh_header_spec(ds: Seq<Digest>, b: Seq<u8>) -> Result<Seq<char>, ErrorView> {
    if all_hashable(ds) {
        Ok(header_value_spec(ds, b))
    } else {
        Err(ErrorView::UnsupportedDigest)
    }
}

/// What signing decides: a fresh header value when overwriting or when no
/// header is present, the existing value untouched otherwise.
pub open spec fn sign_spec(
    ds: Seq<Digest>,
    overwrite: bool,
    existing: Option<Seq<char>>,
    b: Seq<u8>,
) -> Result<Seq<char>, ErrorView> {
    match existing {
        Some(h) => if overwrite {
            fresh_header_spec(ds, b)
        } else {
            Ok(h)
        },
        None => fresh_header_spec(ds, b),
    }
}

/// Appending one digest appends one entry, after a comma when the list was
/// not empty.
pub proof fn lemma_header_value_snoc(ds: Seq<Digest>, d: Digest, b: Seq<u8>)
    ensures
        header_value_spec(ds.push(d), b) == if ds.len() == 0 {
            entry_spec(d, b)
        } else {
            (header_value_spec(ds, b) + seq![','] + entry_spec(d, b))
        },
    decreases ds.len(),
{
    if ds.len() == 0 {
        assert(ds.push(d).len() == 1);
        assert(ds.push(d)[0] == d);
    } else {
        lemma_header_value_snoc(ds.drop_first(), d, b);
        assert(ds.push(d).drop_first() =~= ds.drop_first().push(d));
        assert(ds.push(d)[0] == ds[0]);
        if ds.len() == 1 {
            assert(ds.drop_first().len() == 0);
        } else {
            assert(header_value_spec(ds, b) + seq![','] + entry_spec(d, b) =~= entry_spec(
                ds[0],
                b,
            ) + seq![','] + (header_value_spec(ds.drop_first(), b) + seq![','] + entry_spec(d, b)));
        }
    }
}

/// Compute the digest header value for a fully materialized body: one entry
/// per digest, in the given order.
pub fn compute_digest_header(digests: &Vec<Digest>, body: &Vec<u8>) -> (r: Result<String, Error>)
    ensures
        r matches Ok(s) ==> fresh_header_spec(digests@, body@) == Ok::<Seq<char>, ErrorView>(s@),
        r matches Err(e) ==> fresh_header_spec(digests@, body@) == Err::<Seq<char>, ErrorView>(e@),
        r matches Ok(s) ==> forall|k: int|
            0 <= k < digests@.len() ==> comma_free((#[trigger] digests@[k]).spec_encoded(body@)),
        r matches Ok(s) ==> digests@.len() >= 1 ==> forall|lg: bool|
            #[trigger] all_enabled(digests@, lg) ==> verify_spec(Some(s@), body@, lg) == Ok::<
                (),
                ErrorView,
            >(()),
{
    let ghost ds = digests@;
    let mut value = String::new();
    for i in 0..digests.len()
        invariant
            ds == digests@,
            forall|k: int| 0 <= k < i ==> (#[trigger] ds[k]).hashable(),
            forall|k: int| 0 <= k < i ==> comma_free((#[trigger] ds[k]).spec_encoded(body@)),
            value@ == header_value_spec(ds.take(i as int), body@),
    {
        let d = &digests[i];
        match d.hash(body.as_slice()) {
            Err(e) => {
                proof {
                    assert(!ds[i as int].hashable());
                }
                return Err(e);
            },
            Ok(h) => {
                let encoded = h.encode();
                if i > 0 {
                    push_comma(&mut value);
                }
                value.append(d.name());
                value.append("=");
                value.append(encoded.as_str());
                proof {
                    lemma_header_value_snoc(ds.take(i as int), ds[i as int], body@);
                    assert(ds.take(i as int).push(ds[i as int]) =~= ds.take(i as int + 1));
                    if i > 0 {
                        assert(value@ =~= header_value_spec(ds.take(i as int), body@) + seq![',']
                            + entry_spec(ds[i as int], body@));
                    } else {
                        assert(value@ =~= entry_spec(ds[i as int], body@));
                    }
                }
            },
        }
    }
    proof {
        assert(ds.take(ds.len() as int) =~= ds);
        if ds.len() >= 1 {
            assert forall|lg: bool| #[trigger] all_enabled(ds, lg) implies verify_spec(
                Some(value@),
                body@,
                lg,
            ) == Ok::<(), ErrorView>(()) by {
                lemma_round_trip(ds, body@, lg);
            }
        }
    }
    Ok(value)
}

/// Decide the final digest header value of a request being signed: compute a
/// fresh value when overwriting or when no header is present; keep the
/// existing value untouched otherwise.
pub fn sign_digest_header(
    digests: &Vec<Digest>,
    overwrite: bool,
    existing: &Option<String>,
    body: &Vec<u8>,
) -> (r: Result<String, Error>)
    ensures
        r matches Ok(s) ==> sign_spec(digests@, overwrite, existing.deep_view(), body@)
            == Ok::<Seq<char>, ErrorView>(s@),
        r matches Err(e) ==> sign_spec(digests@, overwrite, existing.deep_view(), body@)
            == Err::<Seq<char>, ErrorView>(e@),
        r matches Ok(s) ==> (overwrite || existing is None) && digests@.len() >= 1
            ==> forall|lg: bool|
            #[trigger] all_enabled(digests@, lg) ==> verify_spec(Some(s@), body@, lg) == Ok::<
                (),
                ErrorView,
            >(()),
{
    if !overwrite {
        if let Some(h) = existing {
            return Ok(h.clone());
        }
    }
    compute_digest_header(digests, body)
}

/// Signing twice is idempotent: whatever header value a first signing
/// produced, a second signing without `overwrite` returns it unchanged,
/// whatever its own algorithm list and body.
pub proof fn lemma_sign_idempotent(
    ds1: Seq<Digest>,
    overwrite1: bool,
    existing: Option<Seq<char>>,
    b1: Seq<u8>,
    h: Seq<char>,
    ds2: Seq<Digest>,
    b2: Seq<u8>,
)
    requires
        sign_spec(ds1, overwrite1, existing, b1) == Ok::<Seq<char>, ErrorView>(h),
    ensures
        sign_spec(ds2, false, Some(h), b2) == Ok::<Seq<char>, ErrorView>(h),
{
}

/// Tower layer configuration for generating the HTTP digest header.
#[derive(Clone, Debug)]
pub struct SignerLayer {
    /// Capacity of the concurrency guard placed before the wrapped stage.
    pub buffer_size: usize,
    /// Ordered list of digest algorithms to sign with.
    pub digests: Vec<Digest>,
    /// Whether an existing digest header is overwritten.
    pub overwrite: bool,
}

impl SignerLayer {
    /// Create a new signer layer with the default buffer size.
    pub fn new(digests: Vec<Digest>, overwrite: bool) -> (r: Self)
        ensures
            r.digests@ == digests@,
            r.overwrite == overwrite,
            r.buffer_size == BUFFER_SIZE,
    {
        Self::new_with_buffer_size(digests, BUFFER_SIZE, overwrite)
    }

    /// Create a new signer layer with a custom buffer size.
    pub fn new_with_buffer_size(digests: Vec<Digest>, buffer_size: usize, overwrite: bool) -> (r:
        Self)
        ensures
            r.digests@ == digests@,
            r.overwrite == overwrite,
            r.buffer_size == buffer_size,
    {
        SignerLayer { buffer_size, digests, overwrite }
    }
}

} // verus!
