use http_digest::{
    compute_digest_header, extend_body_buffer, parse_digest_header, sign_digest_header,
    u32_to_dec_string, verify_digest_header, Digest, Error, SignerLayer, VerifierLayer,
    BUFFER_SIZE,
};

const HELLO_CRC: &str = "2591144780";
const HELLO_SHA256_B64: &str = "LPJNul+wow4m6DsqxbninhsWHlwfp0JecwQzYpOLmCQ=";

#[test]
fn round_trip_sha256() {
    let body = b"hello".to_vec();
    let digests = vec![Digest::Sha256];
    let header = compute_digest_header(&digests, &body).unwrap();
    assert_eq!(verify_digest_header(&Some(header), &body, false), Ok(()));
}

#[test]
fn concrete_scenario_hello() {
    let body = b"hello".to_vec();
    let digests = vec![Digest::Crc32c, Digest::Sha256];
    let header = compute_digest_header(&digests, &body).unwrap();
    assert_eq!(
        header,
        format!("crc32c={HELLO_CRC},sha-256={HELLO_SHA256_B64}")
    );
    assert_eq!(verify_digest_header(&Some(header), &body, false), Ok(()));
}

#[test]
fn order_preservation() {
    let body = b"hello".to_vec();
    let forward = compute_digest_header(&vec![Digest::Crc32c, Digest::Sha256], &body).unwrap();
    let backward = compute_digest_header(&vec![Digest::Sha256, Digest::Crc32c], &body).unwrap();
    assert_eq!(forward, format!("crc32c={HELLO_CRC},sha-256={HELLO_SHA256_B64}"));
    assert_eq!(backward, format!("sha-256={HELLO_SHA256_B64},crc32c={HELLO_CRC}"));
}

#[test]
fn sign_idempotent_without_overwrite() {
    let body = b"hello".to_vec();
    let digests = vec![Digest::Sha256];
    let first = sign_digest_header(&digests, false, &None, &body).unwrap();
    let second = sign_digest_header(
        &vec![Digest::Crc32c, Digest::Sha512],
        false,
        &Some(first.clone()),
        &body,
    )
    .unwrap();
    assert_eq!(second, first);
}

#[test]
fn sign_overwrite_replaces() {
    let body = b"hello".to_vec();
    let existing = Some(String::from("crc32c=0"));
    let header = sign_digest_header(&vec![Digest::Sha256], true, &existing, &body).unwrap();
    assert_eq!(header, format!("sha-256={HELLO_SHA256_B64}"));
}

#[test]
fn tamper_detection_every_byte() {
    let body = b"hello".to_vec();
    let digests = vec![Digest::Sha256, Digest::Sha512];
    let header = compute_digest_header(&digests, &body).unwrap();
    for i in 0..body.len() {
        let mut tampered = body.clone();
        tampered[i] = tampered[i].wrapping_add(1);
        let outcome = verify_digest_header(&Some(header.clone()), &tampered, false);
        assert!(matches!(outcome, Err(Error::HashMismatch { .. })));
    }
}

#[test]
fn short_circuit_reports_second_entry() {
    let body = b"hello".to_vec();
    let header = format!("sha-256={HELLO_SHA256_B64},crc32c=999,sha-512=garbage");
    match verify_digest_header(&Some(header), &body, false) {
        Err(Error::HashMismatch { expected, got }) => {
            assert_eq!(expected, "999");
            assert_eq!(got, HELLO_CRC);
        }
        other => panic!("expected a hash mismatch, got {other:?}"),
    }
}

#[test]
fn missing_header_is_rejected() {
    let body = b"hello".to_vec();
    assert_eq!(
        verify_digest_header(&None, &body, false),
        Err(Error::MissingHeader)
    );
}

#[test]
fn entry_without_separator_is_rejected() {
    let body = b"hello".to_vec();
    let header = Some(String::from("sha-256"));
    assert_eq!(
        verify_digest_header(&header, &body, false),
        Err(Error::InvalidDigestHeader)
    );
}

#[test]
fn unknown_name_is_rejected() {
    let body = b"hello".to_vec();
    let header = Some(String::from("foo=bar"));
    assert_eq!(
        verify_digest_header(&header, &body, false),
        Err(Error::UnsupportedDigest)
    );
}

#[test]
fn empty_header_value_is_malformed() {
    let body = b"hello".to_vec();
    let header = Some(String::new());
    assert_eq!(
        verify_digest_header(&header, &body, false),
        Err(Error::InvalidDigestHeader)
    );
}

#[test]
fn empty_body_round_trip_with_padding() {
    let body = Vec::new();
    // the base64 value ends in padding, so the entry holds a second `=`;
    // parsing must split at the first one only.
    let header = compute_digest_header(&vec![Digest::Sha256], &body).unwrap();
    assert!(header.ends_with('='));
    assert_eq!(verify_digest_header(&Some(header), &body, false), Ok(()));
}

#[test]
fn resolution_is_case_insensitive() {
    assert_eq!(Digest::from_str("CRC32C"), Some(Digest::Crc32c));
    assert_eq!(Digest::from_str("Sha-256"), Some(Digest::Sha256));
    assert_eq!(Digest::from_str("id-SHA-512"), Some(Digest::Sha512));
    assert_eq!(Digest::from_str("UNIXCKSUM"), Some(Digest::Unixcksum));
    assert_eq!(Digest::from_str("unixsum"), Some(Digest::Unixsum));
}

#[test]
fn aliases_resolve() {
    assert_eq!(Digest::from_str("id-sha-256"), Some(Digest::Sha256));
    assert_eq!(Digest::from_str("sha-256"), Some(Digest::Sha256));
    assert_eq!(Digest::from_str("id-sha-512"), Some(Digest::Sha512));
    assert_eq!(Digest::from_str("sha-512"), Some(Digest::Sha512));
}

#[test]
fn legacy_names_are_unknown_unless_enabled() {
    assert_eq!(Digest::from_str("adler32"), None);
    assert_eq!(Digest::from_str("md5"), None);
    assert_eq!(Digest::from_str("sha"), None);
    assert_eq!(Digest::from_str("foo"), None);
    assert_eq!(
        Digest::from_str_with_legacy("adler32", true),
        Some(Digest::Adler32)
    );
    assert_eq!(Digest::from_str_with_legacy("MD5", true), Some(Digest::Md5));
    assert_eq!(Digest::from_str_with_legacy("sha", true), Some(Digest::Sha1));
    assert_eq!(Digest::from_str_with_legacy("foo", true), None);
}

#[test]
fn legacy_round_trip_needs_the_switch() {
    let body = b"hello".to_vec();
    let digests = vec![Digest::Adler32, Digest::Md5, Digest::Sha1];
    let header = compute_digest_header(&digests, &body).unwrap();
    assert!(header.starts_with("adler32=103547413,md5="));
    assert_eq!(
        verify_digest_header(&Some(header.clone()), &body, true),
        Ok(())
    );
    assert_eq!(
        verify_digest_header(&Some(header), &body, false),
        Err(Error::UnsupportedDigest)
    );
}

#[test]
fn unixcksum_resolves_but_cannot_hash() {
    assert_eq!(Digest::from_str("unixcksum"), Some(Digest::Unixcksum));
    assert!(matches!(
        Digest::Unixcksum.hash(b"hello"),
        Err(Error::UnsupportedDigest)
    ));
    assert!(matches!(
        Digest::Unixsum.hash(b"hello"),
        Err(Error::UnsupportedDigest)
    ));
    assert_eq!(
        compute_digest_header(&vec![Digest::Sha256, Digest::Unixsum], &b"hello".to_vec()),
        Err(Error::UnsupportedDigest)
    );
}

#[test]
fn verifying_unixsum_entry_fails_as_unsupported_hash() {
    let body = b"hello".to_vec();
    let header = Some(String::from("unixsum=533"));
    assert_eq!(
        verify_digest_header(&header, &body, false),
        Err(Error::UnsupportedDigest)
    );
}

#[test]
fn digest_lengths_pin_the_hash_functions() {
    let body = b"hello".to_vec();
    let sha512 = compute_digest_header(&vec![Digest::Sha512], &body).unwrap();
    // "sha-512=" plus the base64 of 64 digest bytes, 88 characters.
    assert_eq!(sha512.len(), 8 + 88);
    let md5 = compute_digest_header(&vec![Digest::Md5], &body).unwrap();
    assert_eq!(md5.len(), 4 + 24);
    let sha1 = compute_digest_header(&vec![Digest::Sha1], &body).unwrap();
    assert_eq!(sha1.len(), 4 + 28);
}

#[test]
fn hash_encoding_rules() {
    assert_eq!(http_digest::digest::Hash::Number(0).encode(), "0");
    assert_eq!(http_digest::digest::Hash::Number(2591144780).encode(), HELLO_CRC);
    assert_eq!(http_digest::digest::Hash::Number(u32::MAX).encode(), "4294967295");
    assert_eq!(http_digest::digest::Hash::Bytes(Vec::new()).encode(), "");
    assert_eq!(http_digest::digest::Hash::Bytes(b"hello".to_vec()).encode(), "aGVsbG8=");
    assert_eq!(http_digest::digest::Hash::from(7u32).encode(), "7");
    assert_eq!(http_digest::digest::Hash::from(b"hello".to_vec()).encode(), "aGVsbG8=");
}

#[test]
fn decimal_rendering() {
    assert_eq!(u32_to_dec_string(0), "0");
    assert_eq!(u32_to_dec_string(10), "10");
    assert_eq!(u32_to_dec_string(103547413), "103547413");
    assert_eq!(u32_to_dec_string(u32::MAX), "4294967295");
}

#[test]
fn parse_keeps_header_order_and_values() {
    let entries = parse_digest_header("crc32c=1,sha-256=abc=,crc32c=2", false).unwrap();
    assert_eq!(entries.len(), 3);
    assert_eq!(entries[0].digest, Digest::Crc32c);
    assert_eq!(entries[0].expected, "1");
    assert_eq!(entries[1].digest, Digest::Sha256);
    assert_eq!(entries[1].expected, "abc=");
    assert_eq!(entries[2].digest, Digest::Crc32c);
    assert_eq!(entries[2].expected, "2");
}

#[test]
fn materialization_keeps_chunk_order() {
    let mut buf: Vec<u8> = Vec::new();
    extend_body_buffer(&mut buf, b"he");
    extend_body_buffer(&mut buf, b"");
    extend_body_buffer(&mut buf, b"llo");
    assert_eq!(buf, b"hello".to_vec());
    let digests = vec![Digest::Crc32c];
    let header = compute_digest_header(&digests, &buf).unwrap();
    assert_eq!(header, format!("crc32c={HELLO_CRC}"));
}

#[test]
fn layer_configuration_is_kept() {
    let signer = SignerLayer::new(vec![Digest::Sha256], true);
    assert_eq!(signer.buffer_size, BUFFER_SIZE);
    assert_eq!(signer.digests, vec![Digest::Sha256]);
    assert!(signer.overwrite);
    let signer = SignerLayer::new_with_buffer_size(vec![Digest::Crc32c], 3, false);
    assert_eq!(signer.buffer_size, 3);
    assert!(!signer.overwrite);
    let verifier = VerifierLayer::new();
    assert_eq!(verifier.buffer_size, BUFFER_SIZE);
    let verifier = VerifierLayer::new_with_buffer_size(7);
    assert_eq!(verifier.buffer_size, 7);
    let verifier = VerifierLayer::default();
    assert_eq!(verifier.buffer_size, BUFFER_SIZE);
}
