//! The verifier stage: parsing the digest header, recomputing each digest
//! over the materialized body, and comparing in header order.

use vstd::prelude::*;
use crate::BUFFER_SIZE;
use crate::chars::{
    find_char, find_char_in, comma_free, lemma_find_char_at, lemma_find_char_absent,
};
use crate::digest::{Digest, resolve_name, lemma_name_resolves, lemma_name_wire};
use crate::error::{Error, ErrorView};
use crate::sign::{entry_spec, header_value_spec, all_hashable, all_enabled};

verus! {

/// Split on commas, keeping empty parts: the result always holds one part
/// more than `s` holds commas.
pub open spec fn split_on_commas(s: Seq<char>) -> Seq<Seq<char>>
    decreases s.len()
        via split_on_commas_dec
{
    match find_char(s, ',') {
        None => seq![s],
        Some(i) => seq![s.take(i)] + split_on_commas(s.skip(i + 1)),
    }
}

#[via_fn]
proof fn split_on_commas_dec(s: Seq<char>) {
    crate::chars::lemma_find_char(s, ',');
}

/// One parsed entry: the name before the first `=` resolved to a digest, the
/// expected value after it.
pub open spec fn parse_entry(part: Seq<char>, legacy: bool) -> Result<
    (Digest, Seq<char>),
    ErrorView,
> {
    match find_char(part, '=') {
        None => Err(ErrorView::InvalidDigestHeader),
        Some(i) => match resolve_name(part.take(i), legacy) {
            None => Err(ErrorView::UnsupportedDigest),
            Some(d) => Ok((d, part.skip(i + 1))),
        },
    }
}

/// All parts parsed in order; the first failing part decides the error.
pub open spec fn parse_entries(parts: Seq<Seq<char>>, legacy: bool) -> Result<
    Seq<(Digest, Seq<char>)>,
    ErrorView,
>
    decreases parts.len(),
{
    if parts.len() == 0 {
        Ok(Seq::empty())
    } else {
        match parse_entry(parts[0], legacy) {
            Err(e) => Err(e),
            Ok(ent) => match parse_entries(parts.drop_first(), legacy) {
                Err(e) => Err(e),
                Ok(rest) => Ok(seq![ent] + rest),
            },
        }
    }
}

/// What parsing a digest header value yields.
pub open spec fn parse_header_spec(s: Seq<char>, legacy: bool) -> Result<
    Seq<(Digest, Seq<char>)>,
    ErrorView,
> {
    parse_entries(split_on_commas(s), legacy)
}

/// Whether one parsed entry is confirmed by the body.
pub open spec fn entry_matches(d: Digest, expected: Seq<char>, b: Seq<u8>) -> bool {
    d.hashable() && d.spec_encoded(b) == expected
}

/// Check entries in header order; the first failing entry decides the error
/// and later entries are never evaluated.
pub open spec fn check_entries(ents: Seq<(Digest, Seq<char>)>, b: Seq<u8>) -> Result<
    (),
    ErrorView,
>
    decreases ents.len(),
{
    if ents.len() == 0 {
        Ok(())
    } else if !ents[0].0.hashable() {
        Err(ErrorView::UnsupportedDigest)
    } else if ents[0].0.spec_encoded(b) != ents[0].1 {
        Err(ErrorView::HashMismatch { expected: ents[0].1, got: ents[0].0.spec_encoded(b) })
    } else {
        check_entries(ents.drop_first(), b)
    }
}

/// What verification decides over an inbound header and a materialized body.
pub open spec fn verify_spec(header: Option<Seq<char>>, b: Seq<u8>, legacy: bool) -> Result<
    (),
    ErrorView,
> {
    match header {
        None => Err(ErrorView::MissingHeader),
        Some(s) => match parse_header_spec(s, legacy) {
            Err(e) => Err(e),
            Ok(ents) => check_entries(ents, b),
        },
    }
}

/// One entry of a parsed digest header.
#[derive(Clone, Debug)]
pub struct DigestEntry {
    /// The resolved algorithm.
    pub digest: Digest,
    /// The encoded value the header carries for it.
    pub expected: String,
}

impl View for DigestEntry {
    type V = (Digest, Seq<char>);

    open spec fn view(&self) -> (Digest, Seq<char>) {
        (self.digest, self.expected@)
    }
}

/// Mathematical image of a parsed entry list.
pub open spec fn entries_view(es: Seq<DigestEntry>) -> Seq<(Digest, Seq<char>)> {
    es.map_values(|e: DigestEntry| e@)
}

/// Split the header value on `,`, split each entry on its first `=`, and
/// resolve each name; the first malformed or unresolvable entry decides the
/// error.
pub fn parse_digest_header(value: &str, legacy: bool) -> (r: Result<Vec<DigestEntry>, Error>)
    ensures
        r matches Ok(v) ==> parse_header_spec(value@, legacy) == Ok::<
            Seq<(Digest, Seq<char>)>,
            ErrorView,
        >(entries_view(v@)),
        r matches Err(e) ==> parse_header_spec(value@, legacy) == Err::<
            Seq<(Digest, Seq<char>)>,
            ErrorView,
        >(e@),
{
    let mut entries: Vec<DigestEntry> = Vec::new();
    let mut rest: &str = value;
    proof {
        assert(entries_view(entries@) =~= Seq::<(Digest, Seq<char>)>::empty());
        let pr = parse_entries(split_on_commas(rest@), legacy);
        match pr {
            Ok(more) => {
                assert(entries_view(entries@) + more =~= more);
            },
            Err(_) => {},
        }
    }
    loop
        invariant
            match parse_entries(split_on_commas(rest@), legacy) {
                Ok(more) => parse_header_spec(value@, legacy) == Ok::<
                    Seq<(Digest, Seq<char>)>,
                    ErrorView,
                >(entries_view(entries@) + more),
                Err(e) => parse_header_spec(value@, legacy) == Err::<
                    Seq<(Digest, Seq<char>)>,
                    ErrorView,
                >(e),
            },
        decreases rest@.len(),
    {
        let n = rest.unicode_len();
        let comma = find_char_in(rest, ',');
        let ghost old_rest = rest@;
        let ghost old_entries = entries@;
        let (part, tail): (&str, Option<&str>) = match comma {
            None => (rest, None),
            Some(i) => (rest.substring_char(0, i), Some(rest.substring_char(i + 1, n))),
        };
        proof {
            match comma {
                None => {
                    assert(split_on_commas(old_rest) == seq![old_rest]);
                },
                Some(i) => {
                    assert(part@ =~= old_rest.take(i as int));
                    assert(split_on_commas(old_rest) == seq![old_rest.take(i as int)]
                        + split_on_commas(old_rest.skip(i as int + 1)));
                },
            }
            assert(split_on_commas(old_rest)[0] == part@);
        }
        let m = part.unicode_len();
        let eq = find_char_in(part, '=');
        match eq {
            None => {
                proof {
                    assert(parse_entry(part@, legacy) == Err::<
                        (Digest, Seq<char>),
                        ErrorView,
                    >(ErrorView::InvalidDigestHeader));
                }
                return Err(Error::InvalidDigestHeader);
            },
            Some(j) => {
                let name = part.substring_char(0, j);
                let val = part.substring_char(j + 1, m);
                proof {
                    assert(name@ =~= part@.take(j as int));
                    assert(val@ =~= part@.skip(j as int + 1));
                }
                match Digest::from_str_with_legacy(name, legacy) {
                    None => {
                        proof {
                            assert(parse_entry(part@, legacy) == Err::<
                                (Digest, Seq<char>),
                                ErrorView,
                            >(ErrorView::UnsupportedDigest));
                        }
                        return Err(Error::UnsupportedDigest);
                    },
                    Some(d) => {
                        let ghost dd = d;
                        let exp = val.to_owned();
                        entries.push(DigestEntry { digest: d, expected: exp });
                        proof {
                            assert(parse_entry(part@, legacy) == Ok::<
                                (Digest, Seq<char>),
                                ErrorView,
                            >((dd, val@)));
                            assert(entries_view(entries@) =~= entries_view(old_entries)
                                + seq![(dd, val@)]);
                        }
                    },
                }
            },
        }
        match tail {
            None => {
                proof {
                    assert(parse_entries(split_on_commas(old_rest), legacy)
                        == parse_entries(seq![old_rest], legacy));
                    assert(seq![old_rest].drop_first() =~= Seq::<Seq<char>>::empty());
                    let ent = parse_entry(old_rest, legacy)->Ok_0;
                    assert(seq![ent] + Seq::<(Digest, Seq<char>)>::empty() =~= seq![ent]);
                    assert(entries_view(entries@) =~= entries_view(old_entries) + seq![ent]);
                    assert(parse_entries(seq![old_rest].drop_first(), legacy) == Ok::<
                        Seq<(Digest, Seq<char>)>,
                        ErrorView,
                    >(Seq::empty()));
                    assert(parse_entries(split_on_commas(old_rest), legacy) == Ok::<
                        Seq<(Digest, Seq<char>)>,
                        ErrorView,
                    >(seq![ent]));
                    assert(parse_header_spec(value@, legacy) == Ok::<
                        Seq<(Digest, Seq<char>)>,
                        ErrorView,
                    >(entries_view(entries@)));
                }
                return Ok(entries);
            },
            Some(t) => {
                proof {
                    let i = comma->Some_0 as int;
                    assert(t@ =~= old_rest.skip(i + 1));
                    assert((seq![old_rest.take(i)] + split_on_commas(old_rest.skip(i
                        + 1))).drop_first() =~= split_on_commas(old_rest.skip(i + 1)));
                    let ent = parse_entry(part@, legacy)->Ok_0;
                    match parse_entries(split_on_commas(t@), legacy) {
                        Ok(more) => {
                            assert(entries_view(old_entries) + (seq![ent] + more)
                                =~= entries_view(entries@) + more);
                        },
                        Err(_) => {},
                    }
                }
                rest = t;
            },
        }
    }
}

/// Recompute and compare each parsed entry over the body, in header order,
/// stopping at the first failure.
pub fn verify_entries(entries: &Vec<DigestEntry>, body: &Vec<u8>) -> (r: Result<(), Error>)
    ensures
        r is Ok ==> check_entries(entries_view(entries@), body@) == Ok::<(), ErrorView>(()),
        r matches Err(e) ==> check_entries(entries_view(entries@), body@) == Err::<
            (),
            ErrorView,
        >(e@),
{
    let ghost evs = entries_view(entries@);
    proof {
        assert(evs.skip(0) =~= evs);
    }
    for i in 0..entries.len()
        invariant
            evs == entries_view(entries@),
            evs.len() == entries@.len(),
            check_entries(evs, body@) == check_entries(evs.skip(i as int), body@),
    {
        let ent = &entries[i];
        proof {
            assert(evs.skip(i as int)[0] == evs[i as int]);
            assert(evs[i as int] == entries@[i as int]@);
        }
        match ent.digest.hash(body.as_slice()) {
            Err(e) => {
                return Err(e);
            },
            Ok(h) => {
                let got = h.encode();
                if got != ent.expected {
                    let err = Error::HashMismatch { expected: ent.expected.clone(), got };
                    return Err(err);
                }
                proof {
                    assert(evs.skip(i as int).drop_first() =~= evs.skip(i as int + 1));
                }
            },
        }
    }
    proof {
        assert(evs.skip(entries@.len() as int) =~= Seq::<(Digest, Seq<char>)>::empty());
    }
    Ok(())
}

/// Verify the digest header of a request whose body has been materialized:
/// require the header, parse it, and check every entry in order.
pub fn verify_digest_header(header: &Option<String>, body: &Vec<u8>, legacy: bool) -> (r: Result<
    (),
    Error,
>)
    ensures
        r is Ok ==> verify_spec(header.deep_view(), body@, legacy) == Ok::<(), ErrorView>(()),
        r matches Err(e) ==> verify_spec(header.deep_view(), body@, legacy) == Err::<
            (),
            ErrorView,
        >(e@),
{
    match header {
        None => Err(Error::MissingHeader),
        Some(h) => match parse_digest_header(h.as_str(), legacy) {
            Err(e) => Err(e),
            Ok(entries) => verify_entries(&entries, body),
        },
    }
}

/// Tower layer configuration for verifying the HTTP digest header.
#[derive(Clone, Debug)]
pub struct VerifierLayer {
    /// Capacity of the concurrency guard placed before the wrapped stage.
    pub buffer_size: usize,
}

impl VerifierLayer {
    /// Create a new verifier layer with the default buffer size.
    pub fn new() -> (r: Self)
        ensures
            r.buffer_size == BUFFER_SIZE,
    {
        Self::new_with_buffer_size(BUFFER_SIZE)
    }

    /// Create a new verifier layer with a custom buffer size.
    pub fn new_with_buffer_size(buffer_size: usize) -> (r: Self)
        ensures
            r.buffer_size == buffer_size,
    {
        VerifierLayer { buffer_size }
    }
}

impl Default for VerifierLayer {
    fn default() -> (r: Self)
        ensures
            r.buffer_size == BUFFER_SIZE,
    {
        VerifierLayer { buffer_size: BUFFER_SIZE }
    }
}

/// A missing header is rejected as such, whatever the body.
pub proof fn lemma_missing_header(b: Seq<u8>, legacy: bool)
    ensures
        verify_spec(None, b, legacy) == Err::<(), ErrorView>(ErrorView::MissingHeader),
{
}

/// The signed entries: one per digest, in order, each carrying its encoded
/// hash over the body.
pub open spec fn signed_entries(ds: Seq<Digest>, b: Seq<u8>) -> Seq<(Digest, Seq<char>)> {
    ds.map_values(|d: Digest| (d, d.spec_encoded(b)))
}

/// An entry of a signed header parses back to its digest and its encoded
/// hash: the first `=` stands right after the canonical name.
proof fn lemma_parse_one_signed(d: Digest, b: Seq<u8>, legacy: bool)
    requires
        d.enabled(legacy),
        comma_free(d.spec_encoded(b)),
    ensures
        parse_entry(entry_spec(d, b), legacy) == Ok::<(Digest, Seq<char>), ErrorView>(
            (d, d.spec_encoded(b)),
        ),
        comma_free(entry_spec(d, b)),
        entry_spec(d, b).len() >= 2,
{
    lemma_name_wire(d);
    lemma_name_resolves(d, legacy);
    reveal_strlit("=");
    let name = d.spec_name();
    let v = d.spec_encoded(b);
    let e = entry_spec(d, b);
    assert(e.len() == name.len() + 1 + v.len());
    assert(e[name.len() as int] == '=');
    assert forall|k: int| 0 <= k < name.len() implies e[k] != '=' by {
        assert(e[k] == name[k]);
    }
    lemma_find_char_at(e, '=', name.len() as int);
    assert(e.take(name.len() as int) =~= name);
    assert(e.skip(name.len() as int + 1) =~= v);
    assert forall|k: int| 0 <= k < e.len() implies e[k] != ',' by {
        if k < name.len() {
            assert(e[k] == name[k]);
        } else if k > name.len() {
            assert(e[k] == v[k - name.len() - 1]);
        }
    }
}

/// Parsing a freshly signed header yields exactly the signed entries, in the
/// order of the algorithm list: the header keeps the caller-specified order.
pub proof fn lemma_parse_signed_header(ds: Seq<Digest>, b: Seq<u8>, legacy: bool)
    requires
        ds.len() >= 1,
        all_hashable(ds),
        all_enabled(ds, legacy),
        forall|i: int| 0 <= i < ds.len() ==> comma_free((#[trigger] ds[i]).spec_encoded(b)),
    ensures
        parse_header_spec(header_value_spec(ds, b), legacy) == Ok::<
            Seq<(Digest, Seq<char>)>,
            ErrorView,
        >(signed_entries(ds, b)),
    decreases ds.len(),
{
    let d0 = ds[0];
    let e0 = entry_spec(d0, b);
    let h = header_value_spec(ds, b);
    lemma_parse_one_signed(d0, b, legacy);
    if ds.len() == 1 {
        assert(h == e0);
        lemma_find_char_absent(e0, ',');
        assert(split_on_commas(h) == seq![e0]);
        assert(seq![e0].drop_first() =~= Seq::<Seq<char>>::empty());
        assert(parse_entries(seq![e0].drop_first(), legacy) == Ok::<
            Seq<(Digest, Seq<char>)>,
            ErrorView,
        >(Seq::empty()));
        assert(seq![(d0, d0.spec_encoded(b))] + Seq::<(Digest, Seq<char>)>::empty() =~= seq![
            (d0, d0.spec_encoded(b)),
        ]);
        assert(signed_entries(ds, b) =~= seq![(d0, d0.spec_encoded(b))]);
    } else {
        let dsr = ds.drop_first();
        let hr = header_value_spec(dsr, b);
        assert(h == e0 + seq![','] + hr);
        assert(h[e0.len() as int] == ',');
        assert forall|k: int| 0 <= k < e0.len() implies h[k] != ',' by {
            assert(h[k] == e0[k]);
        }
        lemma_find_char_at(h, ',', e0.len() as int);
        assert(h.take(e0.len() as int) =~= e0);
        assert(h.skip(e0.len() as int + 1) =~= hr);
        assert(split_on_commas(h) == seq![e0] + split_on_commas(hr));
        assert(forall|i: int| 0 <= i < dsr.len() ==> dsr[i] == ds[i + 1]);
        lemma_parse_signed_header(dsr, b, legacy);
        assert((seq![e0] + split_on_commas(hr)).drop_first() =~= split_on_commas(hr));
        assert((seq![e0] + split_on_commas(hr))[0] == e0);
        assert(signed_entries(ds, b) =~= seq![(d0, d0.spec_encoded(b))] + signed_entries(dsr, b));
    }
}

/// Entries that all match check out.
proof fn lemma_check_matching(ents: Seq<(Digest, Seq<char>)>, b: Seq<u8>)
    requires
        forall|i: int| 0 <= i < ents.len() ==> entry_matches(
            (#[trigger] ents[i]).0,
            ents[i].1,
            b,
        ),
    ensures
        check_entries(ents, b) == Ok::<(), ErrorView>(()),
    decreases ents.len(),
{
    if ents.len() > 0 {
        assert(entry_matches(ents[0].0, ents[0].1, b));
        assert(forall|i: int|
            0 <= i < ents.drop_first().len() ==> ents.drop_first()[i] == ents[i + 1]);
        lemma_check_matching(ents.drop_first(), b);
    }
}

/// Round trip: a header freshly signed over a body verifies over that same
/// body, whenever every digest of the list is hashable, resolvable under the
/// verifier's legacy switch, and encodes without a comma (as the encoder
/// guarantees of every value it returns).
pub proof fn lemma_round_trip(ds: Seq<Digest>, b: Seq<u8>, legacy: bool)
    requires
        ds.len() >= 1,
        all_hashable(ds),
        all_enabled(ds, legacy),
        forall|i: int| 0 <= i < ds.len() ==> comma_free((#[trigger] ds[i]).spec_encoded(b)),
    ensures
        verify_spec(Some(header_value_spec(ds, b)), b, legacy) == Ok::<(), ErrorView>(()),
{
    lemma_parse_signed_header(ds, b, legacy);
    let ents = signed_entries(ds, b);
    assert forall|i: int| 0 <= i < ents.len() implies entry_matches(
        (#[trigger] ents[i]).0,
        ents[i].1,
        b,
    ) by {
        assert(ents[i] == (ds[i], ds[i].spec_encoded(b)));
    }
    lemma_check_matching(ents, b);
}

/// The first failing entry decides the error.
proof fn lemma_check_err_at(ents: Seq<(Digest, Seq<char>)>, b: Seq<u8>, j: int)
    requires
        0 <= j < ents.len(),
        forall|k: int| 0 <= k < j ==> entry_matches((#[trigger] ents[k]).0, ents[k].1, b),
        ents[j].0.hashable(),
        ents[j].0.spec_encoded(b) != ents[j].1,
    ensures
        check_entries(ents, b) == Err::<(), ErrorView>(
            (ErrorView::HashMismatch { expected: ents[j].1, got: ents[j].0.spec_encoded(b) }),
        ),
    decreases j,
{
    if j > 0 {
        assert(entry_matches(ents[0].0, ents[0].1, b));
        assert(forall|i: int|
            0 <= i < ents.drop_first().len() ==> ents.drop_first()[i] == ents[i + 1]);
        lemma_check_err_at(ents.drop_first(), b, j - 1);
    }
}

/// Verification stops at the first failure: when the entries before `j`
/// match and entry `j` carries a wrong value for a hashable digest, the
/// result is the mismatch of entry `j`, whatever entries stand after it.
pub proof fn lemma_verify_short_circuit(ents: Seq<(Digest, Seq<char>)>, b: Seq<u8>, j: int)
    requires
        0 <= j < ents.len(),
        forall|k: int| 0 <= k < j ==> entry_matches((#[trigger] ents[k]).0, ents[k].1, b),
        ents[j].0.hashable(),
        ents[j].0.spec_encoded(b) != ents[j].1,
    ensures
        check_entries(ents, b) == Err::<(), ErrorView>(
            (ErrorView::HashMismatch { expected: ents[j].1, got: ents[j].0.spec_encoded(b) }),
        ),
        forall|tail: Seq<(Digest, Seq<char>)>|
            #[trigger] check_entries(ents.take(j + 1) + tail, b) == check_entries(ents, b),
{
    lemma_check_err_at(ents, b, j);
    assert forall|tail: Seq<(Digest, Seq<char>)>|
        #[trigger] check_entries(ents.take(j + 1) + tail, b) == check_entries(ents, b) by {
        let ex = ents.take(j + 1) + tail;
        assert(forall|k: int| 0 <= k <= j ==> ex[k] == ents[k]);
        lemma_check_err_at(ex, b, j);
    }
}

} // verus!
