//! Parsing of the FIDO MDS3 JWT blob into certificate-authority entries.
//!
//! The JWT is split into `header.payload.signature`; the payload is
//! URL-safe Base64 without padding and holds JSON whose `entries` array
//! lists the authenticators. Each entry gives one [`CaEntry`] per
//! attestation root certificate (standard or URL-safe Base64), or a
//! placeholder when it has none. The JWT signature is not checked.
use crate::error::{ErrorModel, FidoMds3AttestationCaError};
use crate::ext::clock::{rfc3339_of_timestamp, utc_rfc3339};
use crate::ext::codec::{
    b64_standard_decode, b64_standard_encode, b64_url_safe_decode, b64_url_safe_no_pad_decode,
    decode_standard, decode_url_safe, decode_url_safe_no_pad, decoded, decoded_to, encode_standard,
    is_b64_standard_char,
    hex_digit, hex_encode, hex_text, sha256, sha256_digest,
};
use crate::ext::json::{
    copy_value, items_of, json_items, json_member, json_parse, json_text, member, parse_json,
    share_value, text_of,
};
use crate::ext::strings::string_from_utf8;
use crate::ext::x509::{certificate_validity, x509_validity};
use crate::text::{
    decimal, decimal_string, lemma_split_append_plain, lemma_split_append_sep, split_bytes,
    split_on, trim_bytes, trim_end_spaces, trim_spaces, trim_start_spaces,
};
use crate::types::{current_timestamp, entries_model, is_clock_reading, opt_string_view, CaEntry, CaEntryModel, ParsedBlob};
use base64::DecodeError;
use serde_json::Value;
use std::sync::Arc;
use vstd::prelude::*;
use vstd::string::*;
use vstd::utf8::{decode_utf8, encode_utf8, is_ascii_chars, is_ascii_chars_encode_utf8, valid_utf8};

verus! {

// ----- reading JSON -----

/// The member `key` of an optional value.
pub open spec fn opt_member(v: Option<Value>, key: Seq<char>) -> Option<Value> {
    match v {
        Some(x) => json_member(x, key),
        None => None,
    }
}

/// The text of an optional value, when it is a JSON string.
pub open spec fn opt_text(v: Option<Value>) -> Option<Seq<char>> {
    match v {
        Some(x) => json_text(x),
        None => None,
    }
}

/// The items of an optional value, when it is a JSON array.
pub open spec fn opt_items(v: Option<Value>) -> Option<Seq<Value>> {
    match v {
        Some(x) => json_items(x),
        None => None,
    }
}

/// The text `t`, or `default` when there is none.
pub open spec fn text_or(t: Option<Seq<char>>, default: Seq<char>) -> Seq<char> {
    match t {
        Some(s) => s,
        None => default,
    }
}

/// The texts of the items that are JSON strings, in order.
pub open spec fn texts_of(items: Seq<Value>) -> Seq<Seq<char>>
    decreases items.len(),
{
    if items.len() == 0 {
        Seq::empty()
    } else {
        let init = texts_of(items.drop_last());
        match json_text(items.last()) {
            Some(s) => init.push(s),
            None => init,
        }
    }
}

/// The value behind an optional reference.
pub open spec fn deref_opt(v: Option<&Value>) -> Option<Value> {
    match v {
        Some(x) => Some(*x),
        None => None,
    }
}

/// The text behind an optional string slice.
pub open spec fn str_opt(v: Option<&str>) -> Option<Seq<char>> {
    match v {
        Some(x) => Some(x@),
        None => None,
    }
}

fn member_opt<'a>(v: Option<&'a Value>, key: &str) -> (res: Option<&'a Value>)
    ensures
        deref_opt(res) == opt_member(deref_opt(v), key@),
{
    match v {
        Some(x) => member(x, key),
        None => None,
    }
}

fn text_opt<'a>(v: Option<&'a Value>) -> (res: Option<&'a str>)
    ensures
        str_opt(res) == opt_text(deref_opt(v)),
{
    match v {
        Some(x) => text_of(x),
        None => None,
    }
}

fn items_opt<'a>(v: Option<&'a Value>) -> (res: Option<&'a Vec<Value>>)
    ensures
        match res {
            Some(a) => opt_items(deref_opt(v)) == Some(a@),
            None => opt_items(deref_opt(v)) is None,
        },
{
    match v {
        Some(x) => items_of(x),
        None => None,
    }
}

fn owned_text_or(t: Option<&str>, default: &str) -> (res: String)
    ensures
        res@ == text_or(str_opt(t), default@),
{
    match t {
        Some(s) => s.to_owned(),
        None => default.to_owned(),
    }
}

fn owned_text(t: Option<&str>) -> (res: Option<String>)
    ensures
        match res {
            Some(s) => str_opt(t) == Some(s@),
            None => t is None,
        },
{
    match t {
        Some(s) => Some(s.to_owned()),
        None => None,
    }
}

/// The strings among `items`, in order.
fn strings_of(items: &Vec<Value>) -> (res: Vec<String>)
    ensures
        res.deep_view() == texts_of(items@),
{
    let mut out: Vec<String> = Vec::new();
    let n = items.len();
    let mut i: usize = 0;
    assert(items@.take(0) =~= Seq::<Value>::empty());
    assert(out.deep_view() =~= Seq::<Seq<char>>::empty());
    while i < n
        invariant
            i <= n == items@.len(),
            out.deep_view() == texts_of(items@.take(i as int)),
        decreases n - i,
    {
        assert(items@.take(i + 1).drop_last() =~= items@.take(i as int));
        let ghost before = out.deep_view();
        match text_of(&items[i]) {
            Some(s) => {
                out.push(s.to_owned());
                assert(out.deep_view() =~= before.push(s@));
            },
            None => {},
        }
        i = i + 1;
    }
    assert(items@.take(n as int) =~= items@);
    out
}

// ----- Base64, digests, PEM and times -----

/// What decoding a JWT part gives: URL-safe Base64 without padding, after
/// trimming white space.
pub open spec fn jwt_part_decoding(input: Seq<u8>) -> Result<Seq<u8>, DecodeError> {
    b64_url_safe_no_pad_decode(trim_spaces(input))
}

/// What decoding a certificate gives: standard Base64 after trimming white
/// space, or, when that fails, URL-safe Base64 (whose error is the one kept).
pub open spec fn certificate_decoding(input: Seq<u8>) -> Result<Seq<u8>, DecodeError> {
    match b64_standard_decode(trim_spaces(input)) {
        Ok(v) => Ok(v),
        Err(_) => b64_url_safe_decode(trim_spaces(input)),
    }
}

fn decode_jwt_bytes(input: &[u8]) -> (res: Result<Vec<u8>, DecodeError>)
    ensures
        decoded(res) == jwt_part_decoding(input@),
        res matches Ok(v) ==> v@.len() <= isize::MAX,
{
    decode_url_safe_no_pad(trim_bytes(input))
}

fn decode_certificate_bytes(input: &[u8]) -> (res: Result<Vec<u8>, DecodeError>)
    ensures
        decoded(res) == certificate_decoding(input@),
        res matches Ok(v) ==> v@.len() <= isize::MAX,
{
    let trimmed = trim_bytes(input);
    match decode_standard(trimmed) {
        Ok(v) => Ok(v),
        Err(_) => decode_url_safe(trimmed),
    }
}

/// Decodes a JWT part: URL-safe Base64 without padding, surrounding white
/// space ignored.
pub fn base64_decode_jwt_part(input: &str) -> (res: Result<Vec<u8>, DecodeError>)
    ensures
        decoded(res) == jwt_part_decoding(input.spec_bytes()),
{
    decode_jwt_bytes(input.as_bytes())
}

/// Decodes a certificate: standard Base64 (padding allowed), and when that
/// fails URL-safe Base64; surrounding white space ignored.
pub fn base64_decode_standard(input: &str) -> (res: Result<Vec<u8>, DecodeError>)
    ensures
        decoded(res) == certificate_decoding(input.spec_bytes()),
{
    decode_certificate_bytes(input.as_bytes())
}

/// Whether `c` is a lower-case hexadecimal digit.
pub open spec fn is_lower_hex(c: char) -> bool {
    ('0' <= c && c <= '9') || ('a' <= c && c <= 'f')
}

/// Hexadecimal text is two digits per byte, each a lower-case hex digit.
pub proof fn lemma_hex_text(b: Seq<u8>)
    ensures
        hex_text(b).len() == 2 * b.len(),
        forall|i: int| 0 <= i < hex_text(b).len() ==> is_lower_hex(#[trigger] hex_text(b)[i]),
    decreases b.len(),
{
    if b.len() > 0 {
        lemma_hex_text(b.drop_last());
        let x = b.last();
        assert(x / 16 < 16);
        assert(x % 16 < 16);
        assert(is_lower_hex(hex_digit(x / 16)));
        assert(is_lower_hex(hex_digit(x % 16)));
    }
}

/// The SHA-256 fingerprint of `data` in lower-case hexadecimal: 64 characters,
/// each `0`-`9` or `a`-`f`.
pub fn sha256_fingerprint(data: &[u8]) -> (res: String)
    ensures
        res@ == hex_text(sha256_digest(data@)),
        res@.len() == 64,
        forall|i: int| 0 <= i < res@.len() ==> is_lower_hex(#[trigger] res@[i]),
{
    let digest = sha256(data);
    let res = hex_encode(digest.as_slice());
    proof {
        lemma_hex_text(digest@);
    }
    res
}

/// A PEM certificate block around the standard Base64 of `der`: three lines,
/// the Base64 text unwrapped on the middle one.
pub open spec fn pem_text(der: Seq<u8>) -> Seq<char> {
    "-----BEGIN CERTIFICATE-----"@ + "\n"@ + b64_standard_encode(der) + "\n"@
        + "-----END CERTIFICATE-----"@
}

proof fn lemma_ascii_bytes(s: Seq<char>)
    requires
        is_ascii_chars(s),
    ensures
        encode_utf8(s).len() == s.len(),
        forall|i: int| 0 <= i < s.len() ==> #[trigger] encode_utf8(s)[i] == s[i] as u8,
{
    is_ascii_chars_encode_utf8(s);
}

/// The bytes of an unwrapped Base64 line hold no white space, so trimming
/// leaves them as they are.
proof fn lemma_b64_line_untrimmed(b: Seq<u8>)
    requires
        forall|i: int| 0 <= i < b.len() ==> is_b64_standard_char(#[trigger] b[i] as char),
    ensures
        trim_spaces(b) == b,
{
    if b.len() > 0 {
        assert(is_b64_standard_char(b[0] as char));
        assert(is_b64_standard_char(b[b.len() - 1] as char));
    }
    assert(trim_start_spaces(b) == b);
    assert(trim_end_spaces(b) == b);
}

/// Encodes a DER certificate as PEM: the standard Base64 of `der`, unwrapped,
/// between a `-----BEGIN CERTIFICATE-----` line and a
/// `-----END CERTIFICATE-----` line. Split at its line feeds, the text has
/// three lines, and the middle one decodes back to `der`.
pub fn pem_encode(der: &[u8]) -> (res: String)
    requires
        der@.len() <= isize::MAX,
    ensures
        res@ == pem_text(der@),
        split_bytes(encode_utf8(res@), 10).len() == 3,
        certificate_decoding(split_bytes(encode_utf8(res@), 10)[1]) == decoded_to(der@),
{
    let b64 = encode_standard(der);
    let mut pem = String::from_str("-----BEGIN CERTIFICATE-----");
    pem.append("\n");
    pem.append(b64.as_str());
    pem.append("\n");
    pem.append("-----END CERTIFICATE-----");
    proof {
        reveal_strlit("-----BEGIN CERTIFICATE-----");
        reveal_strlit("\n");
        reveal_strlit("-----END CERTIFICATE-----");
        let h = "-----BEGIN CERTIFICATE-----"@;
        let f = "-----END CERTIFICATE-----"@;
        let b = b64@;
        let n = b.len() as int;
        let t = pem@;
        assert(h.len() == 27);
        assert(f.len() == 25);
        assert(forall|i: int| 0 <= i < h.len() ==> h[i] as u8 != 10 && ('\0' <= h[i] <= '\u{7f}'));
        assert(forall|i: int| 0 <= i < f.len() ==> f[i] as u8 != 10 && ('\0' <= f[i] <= '\u{7f}'));
        assert(t.len() == 27 + 1 + n + 1 + 25);
        assert(forall|i: int| 0 <= i < 27 ==> t[i] == h[i]);
        assert(t[27] == '\n');
        assert(forall|i: int| 0 <= i < n ==> t[28 + i] == b[i]);
        assert(t[28 + n] == '\n');
        assert(forall|i: int| 0 <= i < 25 ==> t[29 + n + i] == f[i]);
        assert(is_ascii_chars(b));
        assert(is_ascii_chars(t)) by {
            assert forall|i: int| 0 <= i < t.len() implies '\0' <= #[trigger] t[i] <= '\u{7f}' by {
                if i < 27 {
                } else if i == 27 {
                } else if i < 28 + n {
                    assert(t[28 + (i - 28)] == b[i - 28]);
                } else if i == 28 + n {
                } else {
                    assert(t[29 + n + (i - 29 - n)] == f[i - 29 - n]);
                }
            }
        }
        lemma_ascii_bytes(t);
        lemma_ascii_bytes(b);
        let bytes = encode_utf8(t);
        let hb = bytes.subrange(0, 27);
        let bb = bytes.subrange(28, 28 + n);
        let fb = bytes.subrange(29 + n, bytes.len() as int);
        assert(bytes =~= (hb.push(10) + bb).push(10) + fb);
        assert forall|i: int| 0 <= i < hb.len() implies hb[i] != 10 by {
            assert(bytes[i] == t[i] as u8);
        }
        assert forall|i: int| 0 <= i < fb.len() implies fb[i] != 10 by {
            assert(bytes[29 + n + i] == t[29 + n + i] as u8);
            assert(t[29 + n + i] == f[i]);
        }
        assert forall|i: int| 0 <= i < bb.len() implies bb[i] == encode_utf8(b)[i] by {
            assert(bytes[28 + i] == t[28 + i] as u8);
            assert(t[28 + i] == b[i]);
        }
        assert(bb =~= encode_utf8(b));
        assert forall|i: int| 0 <= i < bb.len() implies is_b64_standard_char(#[trigger] bb[i] as char) by {
            assert(is_b64_standard_char(b[i]));
            assert(bb[i] == b[i] as u8);
        }
        assert forall|i: int| 0 <= i < bb.len() implies bb[i] != 10 by {
            assert(is_b64_standard_char(bb[i] as char));
        }
        let empty = Seq::<u8>::empty();
        lemma_split_append_plain(empty, hb, 10);
        assert(empty + hb =~= hb);
        lemma_split_append_sep(hb, 10);
        lemma_split_append_plain(hb.push(10), bb, 10);
        lemma_split_append_sep(hb.push(10) + bb, 10);
        lemma_split_append_plain((hb.push(10) + bb).push(10), fb, 10);
        assert(split_bytes(bytes, 10) =~= seq![hb, bb, fb]);
        lemma_b64_line_untrimmed(bb);
    }
    pem
}

/// The text that stands for an unknown time: the Unix epoch.
pub open spec fn epoch_text() -> Seq<char> {
    "1970-01-01T00:00:00Z"@
}

/// RFC 3339 text of a Unix timestamp, falling back to the epoch when chrono
/// cannot represent it.
pub open spec fn time_text(secs: i64) -> Seq<char> {
    match utc_rfc3339(secs) {
        Some(t) => t,
        None => match utc_rfc3339(0) {
            Some(e) => e,
            None => epoch_text(),
        },
    }
}

/// RFC 3339 text of a certificate time given as a Unix timestamp.
fn format_x509_time(secs: i64) -> (res: String)
    ensures
        res@ == time_text(secs),
{
    match rfc3339_of_timestamp(secs) {
        Some(t) => t,
        None => match rfc3339_of_timestamp(0) {
            Some(e) => e,
            None => String::from_str("1970-01-01T00:00:00Z"),
        },
    }
}


// ----- entries -----

/// The metadata statement of an entry.
pub open spec fn entry_metadata(entry: Value) -> Option<Value> {
    json_member(entry, "metadataStatement"@)
}

/// The identifier of an entry: its `aaguid` string, else its `aaid` string.
pub open spec fn entry_identifier(entry: Value) -> Option<Seq<char>> {
    match opt_text(json_member(entry, "aaguid"@)) {
        Some(s) => Some(s),
        None => opt_text(json_member(entry, "aaid"@)),
    }
}

/// The record that an entry gives when no certificate of it can be used:
/// the entry's descriptive fields with placeholder certificate fields.
pub open spec fn entry_template(entry: Value) -> CaEntryModel {
    let meta = entry_metadata(entry);
    CaEntryModel {
        aaguid: entry_identifier(entry),
        device_name: text_or(opt_text(opt_member(meta, "description"@)), "Unknown Device"@),
        subject: text_or(
            opt_text(opt_member(meta, "attestationRootCertificateSubject"@)),
            "Unknown"@,
        ),
        certificate_pem: "No attestation root certificate"@,
        fingerprint: "no-cert"@,
        not_before: epoch_text(),
        not_after: epoch_text(),
        attestation_types: match opt_items(opt_member(meta, "attestationTypes"@)) {
            Some(a) => texts_of(a),
            None => Seq::empty(),
        },
        protocol_family: text_or(opt_text(opt_member(meta, "protocolFamily"@)), "unknown"@),
        raw_data: Some(entry),
    }
}

/// The validity period of a certificate as RFC 3339 texts (the epoch for
/// both ends when the certificate does not parse).
pub open spec fn validity_texts(der: Seq<u8>) -> (Seq<char>, Seq<char>) {
    match x509_validity(der) {
        Some((a, b)) => (time_text(a), time_text(b)),
        None => (epoch_text(), epoch_text()),
    }
}

/// The record for one decoded certificate of an entry.
pub open spec fn certificate_entry(t: CaEntryModel, der: Seq<u8>) -> CaEntryModel {
    CaEntryModel {
        aaguid: t.aaguid,
        device_name: t.device_name,
        subject: t.subject,
        certificate_pem: pem_text(der),
        fingerprint: hex_text(sha256_digest(der)),
        not_before: validity_texts(der).0,
        not_after: validity_texts(der).1,
        attestation_types: t.attestation_types,
        protocol_family: t.protocol_family,
        raw_data: t.raw_data,
    }
}

/// One record per item that is a string holding a decodable certificate, in order.
pub open spec fn certificate_entries(t: CaEntryModel, items: Seq<Value>) -> Seq<CaEntryModel>
    decreases items.len(),
{
    if items.len() == 0 {
        Seq::empty()
    } else {
        let init = certificate_entries(t, items.drop_last());
        match json_text(items.last()) {
            Some(s) => match certificate_decoding(encode_utf8(s)) {
                Ok(der) => init.push(certificate_entry(t, der)),
                Err(_) => init,
            },
            None => init,
        }
    }
}

/// The records of a metadata entry: one per usable attestation root
/// certificate, or the single placeholder record when there is none.
pub open spec fn entry_records(entry: Value) -> Seq<CaEntryModel> {
    let t = entry_template(entry);
    let found = match opt_items(opt_member(entry_metadata(entry), "attestationRootCertificates"@)) {
        Some(items) => certificate_entries(t, items),
        None => Seq::empty(),
    };
    if found.len() > 0 {
        found
    } else {
        seq![t]
    }
}

proof fn lemma_entries_model_push(v: Seq<CaEntry>, e: CaEntry)
    ensures
        entries_model(v.push(e)) == entries_model(v).push(e@),
{
    assert(entries_model(v.push(e)) =~= entries_model(v).push(e@));
}

proof fn lemma_entries_model_add(a: Seq<CaEntry>, b: Seq<CaEntry>)
    ensures
        entries_model(a + b) == entries_model(a) + entries_model(b),
{
    assert(entries_model(a + b) =~= entries_model(a) + entries_model(b));
}

fn clone_strings(v: &Vec<String>) -> (res: Vec<String>)
    ensures
        res.deep_view() == v.deep_view(),
{
    let mut out: Vec<String> = Vec::new();
    let n = v.len();
    let mut i: usize = 0;
    while i < n
        invariant
            i <= n == v@.len(),
            out.deep_view() == v.deep_view().take(i as int),
        decreases n - i,
    {
        let ghost before = out.deep_view();
        out.push(v[i].clone());
        assert(out.deep_view() =~= before.push(v@[i as int]@));
        assert(v.deep_view().take(i + 1) =~= v.deep_view().take(i as int).push(v@[i as int]@));
        i = i + 1;
    }
    assert(v.deep_view().take(n as int) =~= v.deep_view());
    out
}

fn clone_opt_string(v: &Option<String>) -> (res: Option<String>)
    ensures
        res == *v,
{
    match v {
        Some(s) => Some(s.clone()),
        None => None,
    }
}

fn epoch_string() -> (res: String)
    ensures
        res@ == epoch_text(),
{
    String::from_str("1970-01-01T00:00:00Z")
}

/// Extracts the certificate-authority records of one metadata entry.
///
/// Each attestation root certificate of the entry that is a string and
/// decodes as Base64 gives one record, in order, with the entry's
/// identifier, description, subject, attestation types, protocol family
/// and the entry itself, and the certificate's PEM text, SHA-256
/// fingerprint and validity period. When no certificate gives a record, a
/// single placeholder record is returned, so the result is never empty.
pub fn extract_ca_entries(entry: &Value) -> (res: Vec<CaEntry>)
    ensures
        entries_model(res@) == entry_records(*entry),
        res@.len() >= 1,
{
    let ghost t = entry_template(*entry);
    let metadata = member(entry, "metadataStatement");
    let aaguid = match owned_text(text_opt(member(entry, "aaguid"))) {
        Some(s) => Some(s),
        None => owned_text(text_opt(member(entry, "aaid"))),
    };
    let device_name = owned_text_or(text_opt(member_opt(metadata, "description")), "Unknown Device");
    let subject = owned_text_or(
        text_opt(member_opt(metadata, "attestationRootCertificateSubject")),
        "Unknown",
    );
    let attestation_types: Vec<String> = match items_opt(member_opt(metadata, "attestationTypes")) {
        Some(arr) => strings_of(arr),
        None => Vec::new(),
    };
    let protocol_family = owned_text_or(text_opt(member_opt(metadata, "protocolFamily")), "unknown");
    let raw_data = Arc::new(copy_value(entry));
    assert(opt_string_view(aaguid) == t.aaguid);
    assert(attestation_types.deep_view() =~= t.attestation_types);
    let certs = items_opt(member_opt(metadata, "attestationRootCertificates"));
    if let Some(certs) = certs {
        let mut results: Vec<CaEntry> = Vec::new();
        let n = certs.len();
        let mut i: usize = 0;
        assert(certs@.take(0) =~= Seq::<Value>::empty());
        assert(entries_model(results@) =~= Seq::<CaEntryModel>::empty());
        while i < n
            invariant
                i <= n == certs@.len(),
                opt_string_view(aaguid) == t.aaguid,
                device_name@ == t.device_name,
                subject@ == t.subject,
                attestation_types.deep_view() == t.attestation_types,
                protocol_family@ == t.protocol_family,
                Some(*raw_data) == t.raw_data,
                entries_model(results@) == certificate_entries(t, certs@.take(i as int)),
            decreases n - i,
        {
            assert(certs@.take(i + 1).drop_last() =~= certs@.take(i as int));
            if let Some(cert_b64) = text_of(&certs[i]) {
                if let Ok(cert_der) = decode_certificate_bytes(cert_b64.as_bytes()) {
                    let fingerprint = sha256_fingerprint(cert_der.as_slice());
                    let certificate_pem = pem_encode(cert_der.as_slice());
                    let validity = certificate_validity(cert_der.as_slice());
                    let (not_before, not_after) = match validity {
                        Some((a, b)) => (format_x509_time(a), format_x509_time(b)),
                        None => (epoch_string(), epoch_string()),
                    };
                    let record = CaEntry {
                        aaguid: clone_opt_string(&aaguid),
                        device_name: device_name.clone(),
                        subject: subject.clone(),
                        certificate_pem,
                        fingerprint,
                        not_before,
                        not_after,
                        attestation_types: clone_strings(&attestation_types),
                        protocol_family: protocol_family.clone(),
                        raw_data: Some(share_value(&raw_data)),
                    };
                    proof {
                        lemma_entries_model_push(results@, record);
                        assert(record@ == certificate_entry(t, cert_der@));
                    }
                    results.push(record);
                }
            }
            i = i + 1;
        }
        assert(certs@.take(n as int) =~= certs@);
        if results.len() > 0 {
            return results;
        }
    }
    let placeholder = CaEntry {
        aaguid,
        device_name,
        subject,
        certificate_pem: String::from_str("No attestation root certificate"),
        fingerprint: String::from_str("no-cert"),
        not_before: epoch_string(),
        not_after: epoch_string(),
        attestation_types,
        protocol_family,
        raw_data: Some(raw_data),
    };
    assert(placeholder@ == t);
    let mut out: Vec<CaEntry> = Vec::new();
    out.push(placeholder);
    assert(entries_model(out@) =~= seq![t]);
    out
}

// ----- the blob -----

/// The records of all entries, entry after entry.
pub open spec fn all_entry_records(entries: Seq<Value>) -> Seq<CaEntryModel>
    decreases entries.len(),
{
    if entries.len() == 0 {
        Seq::empty()
    } else {
        all_entry_records(entries.drop_last()) + entry_records(entries.last())
    }
}

/// The byte `.` that separates the parts of a JWT.
pub open spec fn jwt_separator() -> u8 {
    46
}

/// What parsing the JWT with UTF-8 bytes `jwt` gives: the records of all its
/// entries, or the first error met on the way.
pub open spec fn blob_outcome(jwt: Seq<u8>) -> Result<Seq<CaEntryModel>, ErrorModel> {
    let parts = split_bytes(jwt, jwt_separator());
    if parts.len() != 3 {
        Err(ErrorModel::InvalidJwt("Expected 3 parts, got "@ + decimal(parts.len())))
    } else {
        match jwt_part_decoding(parts[1]) {
            Err(e) => Err(ErrorModel::Base64(e)),
            Ok(payload) => if !valid_utf8(payload) {
                Err(ErrorModel::InvalidUtf8)
            } else {
                match json_parse(decode_utf8(payload)) {
                    Err(e) => Err(ErrorModel::Json(e)),
                    Ok(mds) => match opt_items(json_member(mds, "entries"@)) {
                        None => Err(ErrorModel::MissingField("entries"@)),
                        Some(entries) => Ok(all_entry_records(entries)),
                    },
                }
            },
        }
    }
}

/// Parses a FIDO MDS3 JWT blob into its certificate-authority records.
///
/// The JWT must have exactly three `.`-separated parts; the second is
/// decoded (URL-safe Base64 without padding), must be UTF-8 and JSON, and
/// must hold an `entries` array, whose entries give their records through
/// [`extract_ca_entries`]. The first failing step gives the error.
/// `total_entries` is the number of records.
pub fn parse_blob(jwt: &str) -> (res: Result<ParsedBlob, FidoMds3AttestationCaError>)
    ensures
        match blob_outcome(jwt.spec_bytes()) {
            Ok(records) => res matches Ok(blob) && entries_model(blob.cas@) == records
                && blob.total_entries == blob.cas@.len() && is_clock_reading(blob.generated_at),
            Err(e) => res matches Err(err) && err@ == e,
        },
{
    let parts = split_on(jwt.as_bytes(), 46);
    if parts.len() != 3 {
        let mut msg = String::from_str("Expected 3 parts, got ");
        let count = decimal_string(parts.len());
        msg.append(count.as_str());
        return Err(FidoMds3AttestationCaError::InvalidJwtError(msg));
    }
    assert(parts.deep_view()[1] =~= parts@[1]@);
    let payload_bytes = match decode_jwt_bytes(parts[1].as_slice()) {
        Ok(v) => v,
        Err(e) => {
            return Err(FidoMds3AttestationCaError::Base64Error(e));
        },
    };
    let payload_json = match string_from_utf8(payload_bytes) {
        Some(s) => s,
        None => {
            return Err(FidoMds3AttestationCaError::InvalidUtf8Error);
        },
    };
    let mds = match parse_json(payload_json.as_str()) {
        Ok(v) => v,
        Err(e) => {
            return Err(FidoMds3AttestationCaError::JsonError(e));
        },
    };
    let entries = match items_of_member(&mds, "entries") {
        Some(a) => a,
        None => {
            return Err(FidoMds3AttestationCaError::MissingFieldError(String::from_str("entries")));
        },
    };
    let mut cas: Vec<CaEntry> = Vec::new();
    let n = entries.len();
    let mut i: usize = 0;
    assert(entries@.take(0) =~= Seq::<Value>::empty());
    assert(entries_model(cas@) =~= Seq::<CaEntryModel>::empty());
    while i < n
        invariant
            i <= n == entries@.len(),
            entries_model(cas@) == all_entry_records(entries@.take(i as int)),
        decreases n - i,
    {
        assert(entries@.take(i + 1).drop_last() =~= entries@.take(i as int));
        let mut records = extract_ca_entries(&entries[i]);
        proof {
            lemma_entries_model_add(cas@, records@);
        }
        cas.append(&mut records);
        i = i + 1;
    }
    assert(entries@.take(n as int) =~= entries@);
    let total_entries = cas.len();
    Ok(ParsedBlob { generated_at: current_timestamp(), total_entries, cas })
}

fn items_of_member<'a>(v: &'a Value, key: &str) -> (res: Option<&'a Vec<Value>>)
    ensures
        match res {
            Some(a) => opt_items(json_member(*v, key@)) == Some(a@),
            None => opt_items(json_member(*v, key@)) is None,
        },
{
    items_opt(member(v, key))
}

// ----- laws -----

proof fn lemma_certificate_entries_share(t: CaEntryModel, items: Seq<Value>)
    ensures
        forall|i: int| 0 <= i < certificate_entries(t, items).len() ==> {
            &&& (#[trigger] certificate_entries(t, items)[i]).raw_data == t.raw_data
            &&& certificate_entries(t, items)[i].aaguid == t.aaguid
            &&& certificate_entries(t, items)[i].device_name == t.device_name
            &&& certificate_entries(t, items)[i].subject == t.subject
            &&& certificate_entries(t, items)[i].attestation_types == t.attestation_types
            &&& certificate_entries(t, items)[i].protocol_family == t.protocol_family
        },
    decreases items.len(),
{
    if items.len() > 0 {
        lemma_certificate_entries_share(t, items.drop_last());
    }
}

/// All records of a metadata entry, certificate records and placeholder
/// alike, carry that entry as their raw data and the entry's descriptive
/// fields: its `aaguid` string (else its `aaid` string) and, from its
/// `metadataStatement`, the `description` (default `Unknown Device`), the
/// `attestationRootCertificateSubject` (default `Unknown`), the strings of
/// `attestationTypes` (default none) and the `protocolFamily` (default
/// `unknown`).
pub proof fn lemma_records_share_entry(entry: Value)
    ensures
        forall|i: int| 0 <= i < entry_records(entry).len() ==> {
            &&& (#[trigger] entry_records(entry)[i]).raw_data == Some(entry)
            &&& entry_records(entry)[i].aaguid == entry_identifier(entry)
            &&& entry_records(entry)[i].device_name == entry_template(entry).device_name
            &&& entry_records(entry)[i].aaguid == match opt_text(json_member(entry, "aaguid"@)) {
                Some(a) => Some(a),
                None => opt_text(json_member(entry, "aaid"@)),
            }
            &&& entry_records(entry)[i].device_name == text_or(
                opt_text(opt_member(json_member(entry, "metadataStatement"@), "description"@)),
                "Unknown Device"@,
            )
            &&& entry_records(entry)[i].subject == text_or(
                opt_text(
                    opt_member(
                        json_member(entry, "metadataStatement"@),
                        "attestationRootCertificateSubject"@,
                    ),
                ),
                "Unknown"@,
            )
            &&& entry_records(entry)[i].attestation_types == match opt_items(
                opt_member(json_member(entry, "metadataStatement"@), "attestationTypes"@),
            ) {
                Some(a) => texts_of(a),
                None => Seq::empty(),
            }
            &&& entry_records(entry)[i].protocol_family == text_or(
                opt_text(opt_member(json_member(entry, "metadataStatement"@), "protocolFamily"@)),
                "unknown"@,
            )
        },
{
    let t = entry_template(entry);
    match opt_items(opt_member(entry_metadata(entry), "attestationRootCertificates"@)) {
        Some(items) => lemma_certificate_entries_share(t, items),
        None => {},
    }
}

/// Every entry of a blob gives at least one record, so a blob has at least
/// as many records as entries.
pub proof fn lemma_every_entry_has_a_record(entries: Seq<Value>)
    ensures
        all_entry_records(entries).len() >= entries.len(),
    decreases entries.len(),
{
    if entries.len() > 0 {
        lemma_every_entry_has_a_record(entries.drop_last());
    }
}

} // verus!
