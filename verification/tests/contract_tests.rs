//! Scenarios for the contracts and laws of the library on concrete values.

use base64::engine::general_purpose::{STANDARD, URL_SAFE_NO_PAD};
use base64::Engine;
use fido_mds3_attestation_ca::downloader::{
    cli_download_failure_error, download_failure_error, download_latest_blob, lock_is_stale,
    FetchFailure,
};
use fido_mds3_attestation_ca::error::FidoMds3AttestationCaError;
use fido_mds3_attestation_ca::loader::{load_blob_and_call_parser, next_load_step, LoadEvent, LoadStep};
use fido_mds3_attestation_ca::location::{app_dir_creation_error, blob_location};
use fido_mds3_attestation_ca::parser::{
    base64_decode_jwt_part, base64_decode_standard, extract_ca_entries, parse_blob, pem_encode,
    sha256_fingerprint,
};
use fido_mds3_attestation_ca::types::{
    current_timestamp, utc_timestamp_of, AttestationFilter, CaEntry, ParsedBlob, UtcTimestamp,
};
use fido_mds3_attestation_ca::build_ca_list_from_blob;
use serde_json::Value;
use std::path::PathBuf;
use std::sync::Arc;
use uuid::Uuid;

/// A self-signed P-256 certificate valid from 2020-01-01 to 2040-01-01.
const CERT_B64: &str = "MIIBnDCCAUGgAwIBAgIUJla6fm5LPAuTPnqsC0oLPoPl50QwCgYIKoZIzj0EAwIwIzEhMB8GA1UEAwwYRXhhbXBsZSBBdHRlc3RhdGlvbiBSb290MB4XDTIwMDEwMTAwMDAwMFoXDTQwMDEwMTAwMDAwMFowIzEhMB8GA1UEAwwYRXhhbXBsZSBBdHRlc3RhdGlvbiBSb290MFkwEwYHKoZIzj0CAQYIKoZIzj0DAQcDQgAEpqSaq/oVgqVhz8C3jsp94a1EM1ro4qRAVXOiq06BiaFx4iP1L3UuvMfT+Gt6INbAyYkVCo59Odv7Rxe9zGowJKNTMFEwHQYDVR0OBBYEFNdHaoIuklk3qhtgoZRJm9JhxkpWMB8GA1UdIwQYMBaAFNdHaoIuklk3qhtgoZRJm9JhxkpWMA8GA1UdEwEB/wQFMAMBAf8wCgYIKoZIzj0EAwIDSQAwRgIhAInGTLWFYln8ES8gJVnv/jW79x9YTkUsXX51XRN/p3RvAiEAuFBTpvITdTj8MBQVc2GnKkyJHAxo8iX0B9bCdg2hKhM=";

/// SHA-256 of the DER form of `CERT_B64`.
const CERT_SHA256: &str = "06185e9b6a04ca2f875358c855b791840ddbd9c3a4f4f2f84c30cc61ec0bf443";

const AAGUID: &str = "12345678-1234-1234-1234-1234567890ab";

fn json(text: &str) -> Value {
    serde_json::from_str(text).unwrap()
}

fn jwt_of(payload: &str) -> String {
    format!("eyJhbGciOiJIUzI1NiJ9.{}.c2ln", URL_SAFE_NO_PAD.encode(payload))
}

fn stamp() -> UtcTimestamp {
    UtcTimestamp { unix_seconds: 0, subsec_nanos: 0 }
}

fn entry_with(raw: &str, aaguid: Option<&str>, name: &str) -> CaEntry {
    CaEntry {
        aaguid: aaguid.map(|s| s.to_string()),
        device_name: name.to_string(),
        raw_data: Some(Arc::new(json(raw))),
        ..Default::default()
    }
}

fn blob_of(cas: Vec<CaEntry>) -> ParsedBlob {
    let total_entries = cas.len();
    ParsedBlob { generated_at: stamp(), total_entries, cas }
}

#[test]
fn parse_blob_extracts_certificate_records() {
    let payload = format!(
        r#"{{"entries": [{{
            "aaid": "0005:0001",
            "metadataStatement": {{
                "description": "Example Key",
                "attestationRootCertificateSubject": "CN=Example",
                "attestationTypes": ["basic_full", 7, "attca"],
                "attestationRootCertificates": ["{CERT_B64}", 12, "%%%"]
            }}
        }}]}}"#
    );
    let blob = parse_blob(&jwt_of(&payload)).unwrap();
    assert_eq!(blob.total_entries, 1);
    assert_eq!(blob.cas.len(), 1);
    let e = &blob.cas[0];
    assert_eq!(e.aaguid.as_deref(), Some("0005:0001"));
    assert_eq!(e.device_name, "Example Key");
    assert_eq!(e.subject, "CN=Example");
    assert_eq!(e.attestation_types, vec!["basic_full".to_string(), "attca".to_string()]);
    assert_eq!(e.protocol_family, "unknown");
    assert_eq!(e.fingerprint, CERT_SHA256);
    assert_eq!(
        e.certificate_pem,
        format!("-----BEGIN CERTIFICATE-----\n{CERT_B64}\n-----END CERTIFICATE-----")
    );
    assert_eq!(e.not_before, "2020-01-01T00:00:00Z");
    assert_eq!(e.not_after, "2040-01-01T00:00:00Z");
    assert!(e.raw_data.is_some());
}

#[test]
fn parse_blob_keeps_entry_order_and_counts() {
    let payload = format!(
        r#"{{"entries": [
            {{"aaguid": "a", "metadataStatement": {{"attestationRootCertificates": ["{CERT_B64}", "{CERT_B64}"]}}}},
            {{"aaguid": "b"}},
            {{"aaguid": "c", "metadataStatement": {{"description": "C", "protocolFamily": "fido2"}}}}
        ]}}"#
    );
    let blob = parse_blob(&jwt_of(&payload)).unwrap();
    assert_eq!(blob.total_entries, 4);
    let ids: Vec<_> = blob.cas.iter().map(|e| e.aaguid.clone().unwrap()).collect();
    assert_eq!(ids, vec!["a", "a", "b", "c"]);
    assert_eq!(blob.cas[2].device_name, "Unknown Device");
    assert_eq!(blob.cas[2].fingerprint, "no-cert");
    assert_eq!(blob.cas[3].device_name, "C");
    assert_eq!(blob.cas[3].protocol_family, "fido2");
    assert_eq!(blob.cas[3].subject, "Unknown");
    assert_eq!(blob.cas[3].not_before, "1970-01-01T00:00:00Z");
}

#[test]
fn parse_blob_reports_each_error() {
    match parse_blob("onlyonepart") {
        Err(e @ FidoMds3AttestationCaError::InvalidJwtError(_)) => {
            assert_eq!(e.message(), "Invalid JWT structure: Expected 3 parts, got 1")
        }
        other => panic!("unexpected {other:?}"),
    }
    match parse_blob("a.b.c.d.e.f.g.h.i.j.k") {
        Err(FidoMds3AttestationCaError::InvalidJwtError(m)) => {
            assert_eq!(m, "Expected 3 parts, got 11")
        }
        other => panic!("unexpected {other:?}"),
    }
    assert!(matches!(
        parse_blob("h.!!!.s"),
        Err(FidoMds3AttestationCaError::Base64Error(_))
    ));
    let not_utf8 = format!("h.{}.s", URL_SAFE_NO_PAD.encode([0xffu8, 0xfe]));
    assert!(matches!(
        parse_blob(&not_utf8),
        Err(FidoMds3AttestationCaError::InvalidUtf8Error)
    ));
    assert!(matches!(
        parse_blob(&jwt_of("not json")),
        Err(FidoMds3AttestationCaError::JsonError(_))
    ));
    match parse_blob(&jwt_of(r#"{"entries": 3}"#)) {
        Err(FidoMds3AttestationCaError::MissingFieldError(f)) => assert_eq!(f, "entries"),
        other => panic!("unexpected {other:?}"),
    }
}

#[test]
fn jwt_part_is_trimmed_before_decoding() {
    let decoded = base64_decode_jwt_part(" \n\teyJ0ZXN0IjogdHJ1ZX0\u{3000}\r\n").unwrap();
    assert_eq!(decoded, br#"{"test": true}"#);
    let jwt = format!("h.  {}\n.s", URL_SAFE_NO_PAD.encode(r#"{"entries": []}"#));
    assert_eq!(parse_blob(&jwt).unwrap().total_entries, 0);
}

#[test]
fn certificate_decoding_falls_back_to_url_safe() {
    // "-_8=" is only valid in the URL-safe alphabet.
    assert_eq!(base64_decode_standard("-_8=").unwrap(), vec![0xfb, 0xff]);
    assert_eq!(base64_decode_standard("+/8=").unwrap(), vec![0xfb, 0xff]);
    assert!(base64_decode_standard("-_8").is_err());
}

#[test]
fn fingerprint_of_certificate() {
    let der = STANDARD.decode(CERT_B64).unwrap();
    assert_eq!(sha256_fingerprint(&der), CERT_SHA256);
    assert_eq!(
        sha256_fingerprint(b""),
        "e3b0c44298fc1c149afbf4c8996fb92427ae41e4649b934ca495991b7852b855"
    );
}

#[test]
fn extract_prefers_aaguid_and_falls_back_to_placeholder() {
    let entry = json(r#"{"aaguid": "g", "aaid": "a", "metadataStatement": {"attestationRootCertificates": ["~~~~", 5]}}"#);
    let records = extract_ca_entries(&entry);
    assert_eq!(records.len(), 1);
    assert_eq!(records[0].aaguid.as_deref(), Some("g"));
    assert_eq!(records[0].certificate_pem, "No attestation root certificate");
    assert_eq!(records[0].not_after, "1970-01-01T00:00:00Z");
    let bare = extract_ca_entries(&json("[1, 2]"));
    assert_eq!(bare.len(), 1);
    assert_eq!(bare[0].aaguid, None);
    assert_eq!(bare[0].protocol_family, "unknown");
}

#[test]
fn trust_anchor_list_holds_device() {
    let raw = format!(r#"{{"metadataStatement": {{"attestationRootCertificates": ["{CERT_B64}"]}}}}"#);
    let blob = blob_of(vec![entry_with(&raw, Some(AAGUID), "Key A")]);
    let list = blob.build_attestation_trust_anchors().unwrap();
    assert_eq!(list.cas().len(), 1);
    let ca = list.cas().values().next().unwrap();
    let id = Uuid::parse_str(AAGUID).unwrap();
    assert_eq!(ca.aaguids().get(&id).unwrap().description_en(), "Key A");
}

#[test]
fn same_certificate_is_listed_once() {
    let raw = format!(r#"{{"metadataStatement": {{"attestationRootCertificates": ["{CERT_B64}", "{CERT_B64}"]}}}}"#);
    let other = "00000000-0000-0000-0000-0000000000aa";
    let blob = blob_of(vec![
        entry_with(&raw, Some(AAGUID), "Key A"),
        entry_with(&raw, Some(AAGUID), "Key A"),
        entry_with(&raw, Some(other), "Key B"),
    ]);
    let list = blob.build_attestation_trust_anchors().unwrap();
    assert_eq!(list.cas().len(), 1);
    let ca = list.cas().values().next().unwrap();
    assert_eq!(ca.aaguids().len(), 2);
}

#[test]
fn certified_list_is_part_of_full_list() {
    let certified = format!(
        r#"{{"statusReports": [
                {{"status": "NOT_FIDO_CERTIFIED", "effectiveDate": "2019-01-01"}},
                {{"status": "FIDO_CERTIFIED_L2", "effectiveDate": "2021-06-01"}}
            ],
            "metadataStatement": {{"attestationRootCertificates": ["{CERT_B64}"]}}}}"#
    );
    let revoked = format!(
        r#"{{"statusReports": [
                {{"status": "FIDO_CERTIFIED", "effectiveDate": "2020-01-01"}},
                {{"status": "REVOKED", "effectiveDate": "2022-01-01"}}
            ],
            "metadataStatement": {{"attestationRootCertificates": ["{CERT_B64}"]}}}}"#
    );
    let other = "00000000-0000-0000-0000-0000000000bb";
    let blob = blob_of(vec![
        entry_with(&certified, Some(AAGUID), "Certified"),
        entry_with(&revoked, Some(other), "Revoked"),
    ]);
    let all = blob.build_attestation_trust_anchors().unwrap();
    let cert = blob.build_fido_certified_trust_anchors().unwrap();
    let all_ca = all.cas().values().next().unwrap();
    let cert_ca = cert.cas().values().next().unwrap();
    assert_eq!(all_ca.aaguids().len(), 2);
    assert_eq!(cert_ca.aaguids().len(), 1);
    for id in cert_ca.aaguids().keys() {
        assert!(all_ca.aaguids().contains_key(id));
    }
}

#[test]
fn latest_status_tie_takes_last_report() {
    let tie = format!(
        r#"{{"statusReports": [
                {{"status": "FIDO_CERTIFIED", "effectiveDate": "2022-01-01"}},
                {{"status": "REVOKED", "effectiveDate": "2022-01-01"}}
            ],
            "metadataStatement": {{"attestationRootCertificates": ["{CERT_B64}"]}}}}"#
    );
    let blob = blob_of(vec![entry_with(&tie, Some(AAGUID), "Tie")]);
    assert_eq!(blob.build_fido_certified_trust_anchors().unwrap().cas().len(), 0);
    let undated = format!(
        r#"{{"statusReports": [
                {{"status": "REVOKED"}},
                {{"status": "FIDO_CERTIFIED_L3", "effectiveDate": ""}}
            ],
            "metadataStatement": {{"attestationRootCertificates": ["{CERT_B64}"]}}}}"#
    );
    let blob = blob_of(vec![entry_with(&undated, Some(AAGUID), "Undated")]);
    assert_eq!(blob.build_fido_certified_trust_anchors().unwrap().cas().len(), 1);
}

#[test]
fn undecodable_certificate_stops_build() {
    let raw = r#"{"metadataStatement": {"attestationRootCertificates": ["@@@@"]}}"#;
    let blob = blob_of(vec![entry_with(raw, None, "Broken Key")]);
    match blob.build_attestation_trust_anchors() {
        Err(FidoMds3AttestationCaError::Base64DecodeError { device_name, .. }) => {
            assert_eq!(device_name, "Broken Key")
        }
        other => panic!("unexpected {other:?}"),
    }
    let loaded = Ok(Arc::new(blob_of(vec![entry_with(raw, None, "Broken Key")])));
    match build_ca_list_from_blob(AttestationFilter::TrustAnchors, loaded) {
        Err(FidoMds3AttestationCaError::ExtractionError(m)) => {
            assert_eq!(m, "Failed to extract trust anchors.")
        }
        other => panic!("unexpected {other:?}"),
    }
    let failed = Err(FidoMds3AttestationCaError::NoFallbackError);
    assert!(matches!(
        build_ca_list_from_blob(AttestationFilter::FidoCertifiedTrustAnchorsOnly, failed),
        Err(FidoMds3AttestationCaError::NoFallbackError)
    ));
}

#[test]
fn loader_steps_follow_fallbacks() {
    let p = PathBuf::from("/tmp/blob.jwt");
    assert!(matches!(
        next_load_step(LoadEvent::PathResolved(Ok(true))),
        LoadStep::ParseCached
    ));
    assert!(matches!(
        next_load_step(LoadEvent::PathResolved(Ok(false))),
        LoadStep::Download
    ));
    assert!(matches!(
        next_load_step(LoadEvent::PathResolved(Err(FidoMds3AttestationCaError::NoFallbackError))),
        LoadStep::Finish(Err(_))
    ));
    assert!(matches!(
        next_load_step(LoadEvent::CachedParsed(Err(FidoMds3AttestationCaError::InvalidUtf8Error))),
        LoadStep::DiscardCachedAndDownload
    ));
    assert!(matches!(
        next_load_step(LoadEvent::Downloaded(Ok(p.clone()))),
        LoadStep::ParseDownloaded(_)
    ));
    assert!(matches!(
        next_load_step(LoadEvent::Downloaded(Err(FidoMds3AttestationCaError::RateLimitedError))),
        LoadStep::UseEmbedded
    ));
    assert!(matches!(
        next_load_step(LoadEvent::DownloadedParsed(
            p.clone(),
            Err(FidoMds3AttestationCaError::InvalidUtf8Error)
        )),
        LoadStep::DiscardDownloadedAndUseEmbedded(_)
    ));
    assert!(matches!(
        next_load_step(LoadEvent::EmbeddedLoaded(Arc::new(blob_of(vec![])))),
        LoadStep::Finish(Ok(_))
    ));
}

#[test]
fn downloader_decisions() {
    assert!(!lock_is_stale(300));
    assert!(lock_is_stale(301));
    assert!(matches!(
        download_failure_error(FetchFailure::Status(429)),
        FidoMds3AttestationCaError::RateLimitedError
    ));
    match download_failure_error(FetchFailure::Status(503)) {
        FidoMds3AttestationCaError::DownloadError(m) => {
            assert_eq!(m, "HTTP request failed with status code 503")
        }
        other => panic!("unexpected {other:?}"),
    }
    match download_failure_error(FetchFailure::Transport("dns".to_string())) {
        FidoMds3AttestationCaError::DownloadError(m) => {
            assert_eq!(m, "Network error while downloading FIDO MDS blob: dns")
        }
        other => panic!("unexpected {other:?}"),
    }
    match cli_download_failure_error(FetchFailure::Status(404)) {
        FidoMds3AttestationCaError::DownloadError(m) => assert_eq!(m, "HTTP error 404"),
        other => panic!("unexpected {other:?}"),
    }
    let path = PathBuf::from("/tmp/ca_list.jwt");
    assert_eq!(download_latest_blob(Ok(path.clone()), Ok(())).unwrap(), path);
    match download_latest_blob(Ok(path), Err(FidoMds3AttestationCaError::RateLimitedError)) {
        Err(FidoMds3AttestationCaError::DownloadError(m)) => assert_eq!(
            m,
            "FIDO server rate-limited the request (429). Please wait before retrying."
        ),
        other => panic!("unexpected {other:?}"),
    }
    match download_latest_blob(
        Err(FidoMds3AttestationCaError::UniversalPathError("no home".to_string())),
        Ok(()),
    ) {
        Err(FidoMds3AttestationCaError::DownloadError(m)) => {
            assert_eq!(m, "Universal Path Error: no home")
        }
        other => panic!("unexpected {other:?}"),
    }
}

#[test]
fn error_messages() {
    let e = FidoMds3AttestationCaError::IoError {
        path: "/x".to_string(),
        reason: "denied".to_string(),
    };
    assert_eq!(e.message(), "IO error at /x: denied");
    let e = FidoMds3AttestationCaError::Base64DecodeError {
        device_name: "K".to_string(),
        reason: "bad".to_string(),
    };
    assert_eq!(e.message(), "Base64 decode failed for device K: bad");
    let e = FidoMds3AttestationCaError::FileNotFoundError(PathBuf::from("/a/b"));
    assert_eq!(e.message(), "File not found at path: /a/b");
    assert_eq!(
        FidoMds3AttestationCaError::NoFallbackError.message(),
        "No CA list found and embedded fallback is disabled"
    );
    let d = base64_decode_jwt_part("!").unwrap_err();
    assert_eq!(
        FidoMds3AttestationCaError::Base64Error(d.clone()).message(),
        format!("Base64 decode failed: {d}")
    );
}

#[test]
fn json_error_message_carries_parser_text() {
    let jwt = jwt_of("{broken");
    match parse_blob(&jwt) {
        Err(e @ FidoMds3AttestationCaError::JsonError(_)) => {
            let inner = serde_json::from_str::<Value>("{broken").unwrap_err();
            assert_eq!(
                e.message(),
                format!("JSON serialization/deserialization failed: {inner}")
            );
        }
        other => panic!("unexpected {other:?}"),
    }
}

#[test]
fn same_aaid_gives_same_uuid() {
    let blob = blob_of(vec![]);
    let a = entry_with(r#"{"aaid": "4e4e#4005"}"#, Some("not-a-uuid"), "A");
    let b = entry_with(r#"{"aaid": "4e4e#4005", "x": 1}"#, None, "B");
    let ua = blob.extract_uuid_strict(&a);
    assert_eq!(ua, blob.extract_uuid_strict(&b));
    assert_eq!(ua, Uuid::new_v5(&Uuid::NAMESPACE_DNS, b"4e4e#4005"));
    let preferred = entry_with(r#"{"aaid": "4e4e#4005"}"#, Some(AAGUID), "C");
    assert_eq!(blob.extract_uuid_strict(&preferred), Uuid::parse_str(AAGUID).unwrap());
}

#[test]
fn blob_location_prefers_local_directory() {
    let (dir, file) = blob_location(Some(PathBuf::from("/l")), Some(PathBuf::from("/r"))).unwrap();
    assert_eq!(dir, PathBuf::from("/l/fido_mds3_attestation_ca"));
    assert_eq!(file, PathBuf::from("/l/fido_mds3_attestation_ca/ca_list.jwt"));
    let (_, file) = blob_location(None, Some(PathBuf::from("/r"))).unwrap();
    assert_eq!(file, PathBuf::from("/r/fido_mds3_attestation_ca/ca_list.jwt"));
    match blob_location(None, None) {
        Err(FidoMds3AttestationCaError::UniversalPathError(m)) => assert_eq!(
            m,
            "Could not determine local data directory from OS environment"
        ),
        other => panic!("unexpected {other:?}"),
    }
    assert_eq!(
        app_dir_creation_error("denied".to_string()).message(),
        "Universal Path Error: FileSystem Error: denied"
    );
}

#[test]
fn unreadable_blob_file_gives_io_error() {
    let r = load_blob_and_call_parser("/x/ca_list.jwt".to_string(), Err("denied".to_string()));
    match r {
        Err(e @ FidoMds3AttestationCaError::IoError { .. }) => {
            assert_eq!(e.message(), "IO error at /x/ca_list.jwt: denied")
        }
        other => panic!("unexpected {other:?}"),
    }
    let r = load_blob_and_call_parser("/x".to_string(), Ok("a.b".to_string()));
    assert!(matches!(r, Err(FidoMds3AttestationCaError::InvalidJwtError(_))));
}

#[test]
fn pem_has_three_lines_and_round_trips() {
    for der in [&b""[..], &b"x"[..], &b"test der data"[..], &[0xffu8; 200][..]] {
        let pem = pem_encode(der);
        assert_eq!(pem.split('\n').count(), 3);
        let middle = pem.split('\n').nth(1).unwrap();
        assert_eq!(middle, STANDARD.encode(der));
        assert_eq!(base64_decode_standard(middle).unwrap(), der.to_vec());
    }
}

#[test]
fn timestamps_from_epoch_offsets() {
    let t = utc_timestamp_of(Ok((1_700_000_000, 5)));
    assert_eq!((t.unix_seconds, t.subsec_nanos), (1_700_000_000, 5));
    let t = utc_timestamp_of(Err((10, 0)));
    assert_eq!((t.unix_seconds, t.subsec_nanos), (-10, 0));
    let t = utc_timestamp_of(Err((10, 250_000_000)));
    assert_eq!((t.unix_seconds, t.subsec_nanos), (-11, 750_000_000));
    let t = utc_timestamp_of(Ok((u64::MAX, 1)));
    assert_eq!((t.unix_seconds, t.subsec_nanos), (0, 0));
    let before = chrono::Utc::now().timestamp();
    let now = current_timestamp();
    let after = chrono::Utc::now().timestamp();
    assert!(before <= now.unix_seconds && now.unix_seconds <= after);
    assert!(now.subsec_nanos < 1_000_000_000);
}
