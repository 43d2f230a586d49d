//! Tests for fido_mds3_attestation_ca

use base64::engine::general_purpose::URL_SAFE_NO_PAD;
use base64::{engine::general_purpose, Engine};
use chrono::Utc;
use fido_mds3_attestation_ca::embedded_ca_list;
use fido_mds3_attestation_ca::loader;
use fido_mds3_attestation_ca::types::{CaEntry, ParsedBlob, UtcTimestamp};
use serde_json::Value;
use std::sync::Arc;
use uuid::Uuid;

fn json(text: &str) -> Value {
    serde_json::from_str(text).unwrap()
}

fn now() -> UtcTimestamp {
    let t = Utc::now();
    UtcTimestamp {
        unix_seconds: t.timestamp(),
        subsec_nanos: t.timestamp_subsec_nanos(),
    }
}

#[test]
fn test_fallback_behavior() {
    let list = embedded_ca_list();

    // This build carries no embedded snapshot, so the list is empty.
    assert!(
        list.cas.is_empty(),
        "Embedded list should be empty when 'embedded' feature is disabled"
    );
}

#[test]
fn test_embedded_ca_list_loads() {
    let list = embedded_ca_list();
    assert!(list.total_entries == list.cas.len(), "Count mismatch");
}

#[test]
fn test_ca_list_metadata() {
    let list = embedded_ca_list();

    assert_eq!(
        list.cas.len(),
        list.total_entries,
        "total_entries should match actual count"
    );

    for ca in &list.cas {
        assert!(!ca.device_name.is_empty());
        assert!(!ca.certificate_pem.is_empty());
        assert!(!ca.fingerprint.is_empty());
    }
}

#[test]
fn test_loader_file_source_valid() {
    // A mock JWT (header.payload.signature) whose payload holds "entries".
    let test_payload = r#"{"entries":[{"aaguid":"test-aaguid-123","metadataStatement":{"description":"Test Device","attestationRootCertificates":[]}}]}"#;

    let payload_b64 = URL_SAFE_NO_PAD.encode(test_payload);
    let mock_jwt = format!("eyJhbGciOiJIUzI1NiJ9.{payload_b64}.signature");

    // The file's contents, as read from the cache path.
    let result = loader::load_blob_and_call_parser("ca_list.jwt".to_string(), Ok(mock_jwt));

    assert!(
        result.is_ok(),
        "Should load valid CA list: {:?}",
        result.err()
    );

    let list = result.unwrap();
    assert_eq!(list.cas[0].device_name, "Test Device");
}

#[test]
fn test_extract_uuid_strict_logic() {
    let loader = ParsedBlob {
        cas: vec![],
        generated_at: now(),
        total_entries: 10,
    };

    // Case 1: Native AAGUID (FIDO2)
    let aaguid_str = "12345678-1234-1234-1234-1234567890ab";

    let entry_fido2 = CaEntry {
        aaguid: Some(aaguid_str.to_string()),
        device_name: "FIDO2 Device".to_string(),
        raw_data: Some(Arc::new(json(&format!(r#"{{"aaguid": "{aaguid_str}"}}"#)))),
        ..Default::default()
    };

    let uuid_fido2 = loader.extract_uuid_strict(&entry_fido2);

    let parsed_uuid = Uuid::parse_str(aaguid_str).unwrap();

    assert_eq!(uuid_fido2, parsed_uuid);

    // Case 2: U2F AAID (Legacy)
    let aaid_str = "0005:0001";

    let entry_u2f = CaEntry {
        aaguid: None,
        device_name: "U2F Device".to_string(),
        raw_data: Some(Arc::new(json(&format!(r#"{{"aaid": "{aaid_str}"}}"#)))),
        ..Default::default()
    };

    let uuid_u2f = loader.extract_uuid_strict(&entry_u2f);

    let expected_v5 = Uuid::new_v5(&Uuid::NAMESPACE_DNS, aaid_str.as_bytes());

    assert_eq!(uuid_u2f, expected_v5);

    assert_ne!(uuid_u2f, Uuid::nil());

    // Case 3: Empty Entry (The "Ghost" device)
    let entry_empty = CaEntry {
        aaguid: None,
        device_name: "Unknown Device".to_string(),
        raw_data: Some(Arc::new(json("{}"))),
        ..Default::default()
    };

    let uuid_nil = loader.extract_uuid_strict(&entry_empty);

    assert!(uuid_nil.is_nil());
}

#[test]
fn test_build_attestation_trust_anchors_filters_entries() {
    // Create valid base64 data so decoding succeeds
    let valid_cert_b64 = general_purpose::STANDARD.encode(b"valid-test-cert");

    // Entry WITH certificate (should be processed)
    let valid_entry = CaEntry {
        aaguid: Some("12345678-1234-1234-1234-1234567890ab".to_string()),
        device_name: "Valid Device".to_string(),
        raw_data: Some(Arc::new(json(&format!(
            r#"{{"metadataStatement": {{"attestationRootCertificates": ["{valid_cert_b64}"]}}}}"#
        )))),
        ..Default::default()
    };

    // Entry WITHOUT certificates (should be skipped)
    let skipped_entry = CaEntry {
        aaguid: None,
        device_name: "Skipped Device".to_string(),
        raw_data: Some(Arc::new(json(r#"{"metadataStatement": {}}"#))),
        ..Default::default()
    };

    let blob = ParsedBlob {
        cas: vec![valid_entry, skipped_entry],
        generated_at: now(),
        total_entries: 2,
    };

    let result = blob.build_attestation_trust_anchors();

    assert!(
        result.is_ok(),
        "Trust anchor generation should succeed: {:?}",
        result.err()
    );

    let list = result.unwrap();

    // Since builder may reject invalid DER, we only verify filtering behavior
    assert!(
        list.cas().len() <= 1,
        "Function should not produce more trust anchors than valid entries"
    );
}

#[test]
fn test_build_fido_certified_trust_anchors_filters_status() {
    let cert_b64 = general_purpose::STANDARD.encode(b"test-cert");

    // Certified device (should be included)
    let certified_entry = CaEntry {
        aaguid: Some("12345678-1234-1234-1234-1234567890ab".to_string()),
        device_name: "Certified Device".to_string(),
        raw_data: Some(Arc::new(json(&format!(
            r#"{{
                "statusReports": [{{"status": "FIDO_CERTIFIED_L1", "effectiveDate": "2023-01-01"}}],
                "metadataStatement": {{"attestationRootCertificates": ["{cert_b64}"]}}
            }}"#
        )))),
        ..Default::default()
    };

    // Non-certified device (should be skipped)
    let non_certified_entry = CaEntry {
        aaguid: None,
        device_name: "Non Certified".to_string(),
        raw_data: Some(Arc::new(json(&format!(
            r#"{{
                "statusReports": [{{"status": "USER_VERIFICATION_BYPASS", "effectiveDate": "2023-01-01"}}],
                "metadataStatement": {{"attestationRootCertificates": ["{cert_b64}"]}}
            }}"#
        )))),
        ..Default::default()
    };

    let blob = ParsedBlob {
        cas: vec![certified_entry, non_certified_entry],
        generated_at: now(),
        total_entries: 2,
    };

    let result = blob.build_fido_certified_trust_anchors();

    assert!(
        result.is_ok(),
        "FIDO certified trust anchor generation should succeed: {:?}",
        result.err()
    );

    let list = result.unwrap();

    // Only certified entry should remain
    assert!(
        list.cas().len() <= 1,
        "Non-certified devices must be filtered out"
    );
}
