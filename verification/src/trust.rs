//! Trust anchors from parsed metadata: the identifier of each device, the
//! certification filter, and the attestation CA lists built from them.
use crate::error::{ErrorModel, FidoMds3AttestationCaError};
use crate::ext::anchors::{
    build_list, builder_cas, der_ca_key, insert_device_der, list_cas, new_builder, no_cas,
    with_device,
};
use crate::ext::codec::{decode_error_message, decode_error_text};
use crate::ext::ids::{parse_uuid, uuid_from_bits, uuid_of_bits, uuid_parse, uuid_v5_dns, uuid_v5_in_dns};
use crate::ext::json::{items_of, json_member, json_text, member, text_of};
use crate::parser::{
    base64_decode_standard, certificate_decoding, deref_opt, opt_items, opt_member, opt_text,
    text_or,
};
use crate::text::{
    bytes_le, bytes_less_eq, lemma_bytes_le_reflexive, lemma_bytes_le_total,
    lemma_bytes_le_transitive, str_equal,
};
use crate::types::{opt_string_view, raw_value, CaEntry, ParsedBlob};
use base64::DecodeError;
use serde_json::Value;
use uuid::Uuid;
use vstd::prelude::*;
use vstd::string::*;
use vstd::utf8::encode_utf8;
use webauthn_rs::prelude::AttestationCaList;

verus! {

// ----- device identifiers -----

/// The identifier of a device: its AAGUID when that parses as a UUID, else
/// the version-5 UUID (DNS namespace) of the `aaid` string of its raw
/// metadata, else the nil UUID.
pub open spec fn device_uuid(aaguid: Option<Seq<char>>, raw: Option<Value>) -> Uuid {
    let parsed = match aaguid {
        Some(s) => uuid_parse(s),
        None => None,
    };
    match parsed {
        Some(u) => u,
        None => match opt_text(opt_member(raw, "aaid"@)) {
            Some(a) => uuid_v5_dns(encode_utf8(a)),
            None => uuid_from_bits(0),
        },
    }
}

/// The identifier of an entry's device.
pub open spec fn entry_uuid(e: CaEntry) -> Uuid {
    device_uuid(opt_string_view(e.aaguid), raw_value(e.raw_data))
}

/// The raw metadata of an entry, borrowed.
fn raw_of(e: &CaEntry) -> (res: Option<&Value>)
    ensures
        match res {
            Some(v) => raw_value(e.raw_data) == Some(*v),
            None => e.raw_data is None,
        },
{
    match &e.raw_data {
        Some(a) => Some(&**a),
        None => None,
    }
}

// ----- certification status -----

/// The effective date of a status report as UTF-8 bytes (empty when missing).
pub open spec fn report_date(report: Value) -> Seq<u8> {
    match opt_text(json_member(report, "effectiveDate"@)) {
        Some(t) => encode_utf8(t),
        None => Seq::empty(),
    }
}

/// Index of the report with the greatest effective date, the last of them on a tie.
pub open spec fn latest_report_index(reports: Seq<Value>) -> int
    decreases reports.len(),
{
    if reports.len() <= 1 {
        0
    } else {
        let j = latest_report_index(reports.drop_last());
        if bytes_le(report_date(reports[j]), report_date(reports.last())) {
            reports.len() - 1
        } else {
            j
        }
    }
}

/// The status of the latest report of a raw entry (empty when none says).
pub open spec fn latest_status(raw: Option<Value>) -> Seq<char> {
    match opt_items(opt_member(raw, "statusReports"@)) {
        Some(reports) => if reports.len() == 0 {
            Seq::empty()
        } else {
            text_or(opt_text(json_member(reports[latest_report_index(reports)], "status"@)), Seq::empty())
        },
        None => Seq::empty(),
    }
}

/// Whether a status is one of the FIDO certification levels.
pub open spec fn is_certified_status(status: Seq<char>) -> bool {
    ||| status == "FIDO_CERTIFIED"@
    ||| status == "FIDO_CERTIFIED_L1"@
    ||| status == "FIDO_CERTIFIED_L2"@
    ||| status == "FIDO_CERTIFIED_L3"@
}

proof fn lemma_latest_index_bound(reports: Seq<Value>)
    ensures
        reports.len() > 0 ==> 0 <= latest_report_index(reports) < reports.len(),
    decreases reports.len(),
{
    if reports.len() > 1 {
        lemma_latest_index_bound(reports.drop_last());
    }
}

/// The latest report is the most recent: no report has a later effective
/// date (byte order), and every report after it in the array has an
/// earlier one.
proof fn lemma_latest_index_is_most_recent(reports: Seq<Value>)
    requires
        reports.len() > 0,
    ensures
        0 <= latest_report_index(reports) < reports.len(),
        forall|j: int| 0 <= j < reports.len() ==> #[trigger] bytes_le(
            report_date(reports[j]),
            report_date(reports[latest_report_index(reports)]),
        ),
        forall|j: int| latest_report_index(reports) < j < reports.len() ==> !#[trigger] bytes_le(
            report_date(reports[latest_report_index(reports)]),
            report_date(reports[j]),
        ),
    decreases reports.len(),
{
    let n = reports.len();
    if n == 1 {
        lemma_bytes_le_reflexive(report_date(reports[0]));
    } else {
        let init = reports.drop_last();
        lemma_latest_index_is_most_recent(init);
        let j = latest_report_index(init);
        let dj = report_date(reports[j]);
        let dl = report_date(reports.last());
        assert(init[j] == reports[j]);
        if bytes_le(dj, dl) {
            assert forall|i: int| 0 <= i < n implies #[trigger] bytes_le(report_date(reports[i]), dl) by {
                if i < n - 1 {
                    assert(init[i] == reports[i]);
                    lemma_bytes_le_transitive(report_date(reports[i]), dj, dl);
                } else {
                    lemma_bytes_le_reflexive(dl);
                }
            }
        } else {
            lemma_bytes_le_total(dj, dl);
            assert forall|i: int| 0 <= i < n implies #[trigger] bytes_le(report_date(reports[i]), dj) by {
                if i < n - 1 {
                    assert(init[i] == reports[i]);
                }
            }
            assert forall|i: int| j < i < n implies !#[trigger] bytes_le(dj, report_date(reports[i])) by {
                if i < n - 1 {
                    assert(init[i] == reports[i]);
                }
            }
        }
    }
}

/// The status that decides certification is that of the most recent report:
/// when an entry has status reports, its latest status is the `status` text
/// of a report whose effective date (the UTF-8 bytes of its `effectiveDate`
/// text, empty when missing) is at or after that of every report, and
/// strictly after that of each report that follows it in the array.
pub proof fn lemma_latest_status_is_most_recent(raw: Option<Value>, reports: Seq<Value>)
    requires
        opt_items(opt_member(raw, "statusReports"@)) == Some(reports),
        reports.len() > 0,
    ensures
        forall|j: int| 0 <= j < reports.len() ==> #[trigger] report_date(reports[j]) == match opt_text(
            json_member(reports[j], "effectiveDate"@),
        ) {
            Some(t) => encode_utf8(t),
            None => Seq::<u8>::empty(),
        },
        exists|k: int|
            {
                &&& 0 <= k < reports.len()
                &&& latest_status(raw) == text_or(opt_text(json_member(reports[k], "status"@)), Seq::empty())
                &&& forall|j: int| 0 <= j < reports.len() ==> #[trigger] bytes_le(report_date(reports[j]), report_date(reports[k]))
                &&& forall|j: int| k < j < reports.len() ==> !#[trigger] bytes_le(report_date(reports[k]), report_date(reports[j]))
            },
{
    lemma_latest_index_is_most_recent(reports);
    let k = latest_report_index(reports);
    assert(forall|j: int| 0 <= j < reports.len() ==> #[trigger] bytes_le(report_date(reports[j]), report_date(reports[k])));
}

fn report_date_bytes(report: &Value) -> (res: &[u8])
    ensures
        res@ == report_date(*report),
{
    match member(report, "effectiveDate") {
        Some(d) => match text_of(d) {
            Some(t) => t.as_bytes(),
            None => {
                let e: &[u8] = &[];
                assert(e@ =~= Seq::<u8>::empty());
                e
            },
        },
        None => {
            let e: &[u8] = &[];
            assert(e@ =~= Seq::<u8>::empty());
            e
        },
    }
}

/// Index of the latest report.
fn latest_report(reports: &Vec<Value>) -> (k: usize)
    requires
        reports@.len() > 0,
    ensures
        k == latest_report_index(reports@),
{
    let n = reports.len();
    let mut best: usize = 0;
    let mut i: usize = 1;
    assert(reports@.take(1).len() == 1);
    while i < n
        invariant
            1 <= i <= n == reports@.len(),
            best < i,
            best == latest_report_index(reports@.take(i as int)),
            forall|j: int| 0 <= j < i ==> reports@.take(i as int)[j] == reports@[j],
        decreases n - i,
    {
        assert(reports@.take(i + 1).drop_last() =~= reports@.take(i as int));
        if bytes_less_eq(report_date_bytes(&reports[best]), report_date_bytes(&reports[i])) {
            best = i;
        }
        i = i + 1;
    }
    assert(reports@.take(n as int) =~= reports@);
    best
}

/// Whether the latest status of a raw entry is a FIDO certification.
fn is_fido_certified(raw: Option<&Value>) -> (res: bool)
    ensures
        res == is_certified_status(latest_status(deref_opt(raw))),
{
    proof {
        reveal_strlit("");
    }
    let reports = match raw {
        Some(r) => match member(r, "statusReports") {
            Some(s) => items_of(s),
            None => None,
        },
        None => None,
    };
    let status: &str = match reports {
        Some(reports) => {
            if reports.len() == 0 {
                ""
            } else {
                let k = latest_report(reports);
                proof {
                    lemma_latest_index_bound(reports@);
                }
                match member(&reports[k], "status") {
                    Some(s) => match text_of(s) {
                        Some(t) => t,
                        None => "",
                    },
                    None => "",
                }
            }
        },
        None => "",
    };
    assert(status@ == latest_status(deref_opt(raw)));
    str_equal(status, "FIDO_CERTIFIED") || str_equal(status, "FIDO_CERTIFIED_L1") || str_equal(
        status,
        "FIDO_CERTIFIED_L2",
    ) || str_equal(status, "FIDO_CERTIFIED_L3")
}

// ----- trust anchor lists -----

/// One certificate to file in a CA list: its DER bytes, the device's
/// identifier and the device's name.
pub type Insertion = (Seq<u8>, Uuid, Seq<char>);

/// The certificates of a raw entry: `metadataStatement.attestationRootCertificates`.
pub open spec fn raw_certificates(raw: Option<Value>) -> Option<Seq<Value>> {
    opt_items(opt_member(opt_member(raw, "metadataStatement"@), "attestationRootCertificates"@))
}

/// The insertions that a list of certificate items asks for (strings are
/// decoded, other items skipped), or the error for the first string that
/// does not decode.
pub open spec fn certificate_insertions(items: Seq<Value>, id: Uuid, name: Seq<char>) -> Result<
    Seq<Insertion>,
    ErrorModel,
>
    decreases items.len(),
{
    if items.len() == 0 {
        Ok(Seq::empty())
    } else {
        match certificate_insertions(items.drop_last(), id, name) {
            Err(e) => Err(e),
            Ok(init) => match json_text(items.last()) {
                None => Ok(init),
                Some(s) => match certificate_decoding(encode_utf8(s)) {
                    Ok(der) => Ok(init.push((der, id, name))),
                    Err(d) => Err(ErrorModel::Base64Decode { device_name: name, reason: decode_error_text(d) }),
                },
            },
        }
    }
}

/// Whether an entry takes part in a list: always, or, for the certified
/// list, when its latest status is a FIDO certification.
pub open spec fn entry_selected(e: CaEntry, certified_only: bool) -> bool {
    !certified_only || is_certified_status(latest_status(raw_value(e.raw_data)))
}

/// The insertions that the entries ask for, entry after entry, or the
/// first decoding error.
pub open spec fn anchor_insertions(cas: Seq<CaEntry>, certified_only: bool) -> Result<Seq<Insertion>, ErrorModel>
    decreases cas.len(),
{
    if cas.len() == 0 {
        Ok(Seq::empty())
    } else {
        match anchor_insertions(cas.drop_last(), certified_only) {
            Err(e) => Err(e),
            Ok(init) => {
                let e = cas.last();
                if !entry_selected(e, certified_only) {
                    Ok(init)
                } else {
                    match raw_certificates(raw_value(e.raw_data)) {
                        None => Ok(init),
                        Some(items) => match certificate_insertions(items, entry_uuid(e), e.device_name@) {
                            Err(x) => Err(x),
                            Ok(more) => Ok(init + more),
                        },
                    }
                }
            },
        }
    }
}

/// The CA map after filing each insertion in order; a certificate that the
/// list refuses changes nothing.
pub open spec fn with_devices(cas: Map<Seq<u8>, Map<Uuid, Seq<char>>>, plan: Seq<Insertion>) -> Map<Seq<u8>, Map<Uuid, Seq<char>>>
    decreases plan.len(),
{
    if plan.len() == 0 {
        cas
    } else {
        let (der, id, name) = plan.last();
        with_device(with_devices(cas, plan.drop_last()), der_ca_key(der), id, name)
    }
}

/// Filing `p` then `q` is filing `p + q`.
pub proof fn lemma_with_devices_append(cas: Map<Seq<u8>, Map<Uuid, Seq<char>>>, p: Seq<Insertion>, q: Seq<Insertion>)
    ensures
        with_devices(cas, p + q) == with_devices(with_devices(cas, p), q),
    decreases q.len(),
{
    if q.len() == 0 {
        assert(p + q =~= p);
    } else {
        assert((p + q).drop_last() =~= p + q.drop_last());
        assert((p + q).last() == q.last());
        lemma_with_devices_append(cas, p, q.drop_last());
    }
}

/// What building a list from `cas` gives: the CA map of all insertions, or
/// the first decoding error.
pub open spec fn anchor_list_outcome(cas: Seq<CaEntry>, certified_only: bool) -> Result<Map<Seq<u8>, Map<Uuid, Seq<char>>>, ErrorModel> {
    match anchor_insertions(cas, certified_only) {
        Ok(plan) => Ok(with_devices(no_cas(), plan)),
        Err(e) => Err(e),
    }
}

impl ParsedBlob {
    /// The identifier of an entry's device: its AAGUID when it parses as a
    /// UUID (FIDO2), else the version-5 UUID in the DNS namespace of the
    /// `aaid` string in its raw metadata (U2F), else the nil UUID.
    pub fn extract_uuid_strict(&self, entry: &CaEntry) -> (res: Uuid)
        ensures
            res == entry_uuid(*entry),
    {
        if let Some(aaguid) = &entry.aaguid {
            if let Some(u) = parse_uuid(aaguid.as_str()) {
                return u;
            }
        }
        let raw = raw_of(entry);
        let aaid = match raw {
            Some(r) => match member(r, "aaid") {
                Some(a) => text_of(a),
                None => None,
            },
            None => None,
        };
        match aaid {
            Some(a) => uuid_v5_in_dns(a.as_bytes()),
            None => uuid_of_bits(0),
        }
    }

    /// Files the certificates of one entry.
    fn insert_entry_certificates(
        &self,
        builder: &mut webauthn_rs::prelude::AttestationCaListBuilder,
        entry: &CaEntry,
        items: &Vec<Value>,
        id: Uuid,
        Ghost(done): Ghost<Seq<Insertion>>,
    ) -> (res: Result<(), FidoMds3AttestationCaError>)
        requires
            builder_cas(*old(builder)) == with_devices(no_cas(), done),
        ensures
            match certificate_insertions(items@, id, entry.device_name@) {
                Ok(more) => res is Ok && builder_cas(*final(builder)) == with_devices(no_cas(), done + more),
                Err(e) => res matches Err(err) && err@ == e,
            },
    {
        let n = items.len();
        let mut j: usize = 0;
        assert(items@.take(0) =~= Seq::<Value>::empty());
        assert(done + Seq::<Insertion>::empty() =~= done);
        while j < n
            invariant
                j <= n == items@.len(),
                certificate_insertions(items@.take(j as int), id, entry.device_name@) matches Ok(q)
                    && builder_cas(*builder) == with_devices(no_cas(), done + q),
            decreases n - j,
        {
            assert(items@.take(j + 1).drop_last() =~= items@.take(j as int));
            let ghost q = certificate_insertions(items@.take(j as int), id, entry.device_name@)->Ok_0;
            if let Some(cert_b64) = text_of(&items[j]) {
                match base64_decode_standard(cert_b64) {
                    Ok(der) => {
                        let ghost before = builder_cas(*builder);
                        insert_device_der(builder, der.as_slice(), id, entry.device_name.clone());
                        proof {
                            let x = (der@, id, entry.device_name@);
                            assert((done + q).push(x) =~= done + q.push(x));
                            assert((done + q).push(x).drop_last() =~= done + q);
                            assert(certificate_insertions(items@.take(j + 1), id, entry.device_name@) == Ok::<Seq<Insertion>, ErrorModel>(q.push(x)));
                            assert(builder_cas(*builder) == with_device(before, der_ca_key(der@), id, entry.device_name@));
                            assert(with_devices(no_cas(), (done + q).push(x)) == with_device(with_devices(no_cas(), done + q), der_ca_key(der@), id, entry.device_name@));
                        }
                    },
                    Err(d) => {
                        let reason = decode_error_message(&d);
                        proof {
                            lemma_insertions_error_stays(items@, j as int, id, entry.device_name@);
                        }
                        return Err(FidoMds3AttestationCaError::Base64DecodeError {
                            device_name: entry.device_name.clone(),
                            reason,
                        });
                    },
                }
            }
            j = j + 1;
        }
        assert(items@.take(n as int) =~= items@);
        Ok(())
    }

    /// Builds the CA list of the selected entries.
    fn build_trust_anchors(&self, certified_only: bool) -> (res: Result<AttestationCaList, FidoMds3AttestationCaError>)
        ensures
            match anchor_list_outcome(self.cas@, certified_only) {
                Ok(cas) => res matches Ok(list) && list_cas(list) == cas,
                Err(e) => res matches Err(err) && err@ == e,
            },
    {
        let mut builder = new_builder();
        let n = self.cas.len();
        let mut i: usize = 0;
        assert(self.cas@.take(0) =~= Seq::<CaEntry>::empty());
        while i < n
            invariant
                i <= n == self.cas@.len(),
                anchor_insertions(self.cas@.take(i as int), certified_only) matches Ok(p)
                    && builder_cas(builder) == with_devices(no_cas(), p),
            decreases n - i,
        {
            assert(self.cas@.take(i + 1).drop_last() =~= self.cas@.take(i as int));
            assert(self.cas@.take(i + 1).last() == self.cas@[i as int]);
            let ghost p = anchor_insertions(self.cas@.take(i as int), certified_only)->Ok_0;
            let entry = &self.cas[i];
            let raw = raw_of(entry);
            let selected = if certified_only {
                is_fido_certified(raw)
            } else {
                true
            };
            assert(deref_opt(raw) == raw_value(entry.raw_data));
            if selected {
                let id = self.extract_uuid_strict(entry);
                let items = match raw {
                    Some(r) => match member(r, "metadataStatement") {
                        Some(m) => match member(m, "attestationRootCertificates") {
                            Some(c) => items_of(c),
                            None => None,
                        },
                        None => None,
                    },
                    None => None,
                };
                if let Some(items) = items {
                    let r = self.insert_entry_certificates(&mut builder, entry, items, id, Ghost(p));
                    match r {
                        Ok(()) => {},
                        Err(e) => {
                            proof {
                                lemma_anchor_error_stays(self.cas@, i as int, certified_only);
                            }
                            return Err(e);
                        },
                    }
                }
            }
            i = i + 1;
        }
        assert(self.cas@.take(n as int) =~= self.cas@);
        Ok(build_list(builder))
    }

    /// Builds the attestation CA list of all entries' attestation root
    /// certificates (from `metadataStatement.attestationRootCertificates`
    /// of their raw metadata), each filed under the device's identifier and
    /// name. Certificates that the list refuses are skipped; a certificate
    /// string that is not Base64 stops the build with
    /// [`FidoMds3AttestationCaError::Base64DecodeError`].
    pub fn build_attestation_trust_anchors(&self) -> (res: Result<AttestationCaList, FidoMds3AttestationCaError>)
        ensures
            match anchor_list_outcome(self.cas@, false) {
                Ok(cas) => res matches Ok(list) && list_cas(list) == cas,
                Err(e) => res matches Err(err) && err@ == e,
            },
    {
        self.build_trust_anchors(false)
    }

    /// Builds the attestation CA list as [`Self::build_attestation_trust_anchors`]
    /// does, from the entries whose latest status report (greatest
    /// `effectiveDate`, the last on a tie) is `FIDO_CERTIFIED` or
    /// `FIDO_CERTIFIED_L1`, `_L2` or `_L3` only.
    pub fn build_fido_certified_trust_anchors(&self) -> (res: Result<AttestationCaList, FidoMds3AttestationCaError>)
        ensures
            match anchor_list_outcome(self.cas@, true) {
                Ok(cas) => res matches Ok(list) && list_cas(list) == cas,
                Err(e) => res matches Err(err) && err@ == e,
            },
    {
        self.build_trust_anchors(true)
    }
}

proof fn lemma_insertions_error_stays(items: Seq<Value>, j: int, id: Uuid, name: Seq<char>)
    requires
        0 <= j < items.len(),
        certificate_insertions(items.take(j + 1), id, name) is Err,
    ensures
        certificate_insertions(items, id, name) == certificate_insertions(items.take(j + 1), id, name),
    decreases items.len() - j,
{
    if j + 1 < items.len() {
        assert(items.take(j + 2).drop_last() =~= items.take(j + 1));
        lemma_insertions_error_stays(items, j + 1, id, name);
    } else {
        assert(items.take(j + 1) =~= items);
    }
}

proof fn lemma_anchor_error_stays(cas: Seq<CaEntry>, i: int, certified_only: bool)
    requires
        0 <= i < cas.len(),
        anchor_insertions(cas.take(i + 1), certified_only) is Err,
    ensures
        anchor_insertions(cas, certified_only) == anchor_insertions(cas.take(i + 1), certified_only),
    decreases cas.len() - i,
{
    if i + 1 < cas.len() {
        assert(cas.take(i + 2).drop_last() =~= cas.take(i + 1));
        lemma_anchor_error_stays(cas, i + 1, certified_only);
    } else {
        assert(cas.take(i + 1) =~= cas);
    }
}

// ----- laws -----

/// Every CA key of `a` is in `b`, and every device filed under it in `a` is
/// filed under it in `b`.
pub open spec fn cas_within(a: Map<Seq<u8>, Map<Uuid, Seq<char>>>, b: Map<Seq<u8>, Map<Uuid, Seq<char>>>) -> bool {
    forall|k: Seq<u8>| #[trigger] a.dom().contains(k) ==> {
        &&& b.dom().contains(k)
        &&& forall|u: Uuid| #[trigger] a[k].dom().contains(u) ==> b[k].dom().contains(u)
    }
}

proof fn lemma_within_one(
    a: Map<Seq<u8>, Map<Uuid, Seq<char>>>,
    b: Map<Seq<u8>, Map<Uuid, Seq<char>>>,
    key: Option<Seq<u8>>,
    id: Uuid,
    name: Seq<char>,
)
    requires
        cas_within(a, b),
    ensures
        cas_within(a, with_device(b, key, id, name)),
        cas_within(with_device(a, key, id, name), with_device(b, key, id, name)),
{
    let b2 = with_device(b, key, id, name);
    let a2 = with_device(a, key, id, name);
    assert forall|k: Seq<u8>| #[trigger] a.dom().contains(k) implies {
        &&& b2.dom().contains(k)
        &&& forall|u: Uuid| #[trigger] a[k].dom().contains(u) ==> b2[k].dom().contains(u)
    } by {
        assert(b.dom().contains(k));
        assert forall|u: Uuid| #[trigger] a[k].dom().contains(u) implies b2[k].dom().contains(u) by {
            assert(b[k].dom().contains(u));
        }
    }
    assert forall|k: Seq<u8>| #[trigger] a2.dom().contains(k) implies {
        &&& b2.dom().contains(k)
        &&& forall|u: Uuid| #[trigger] a2[k].dom().contains(u) ==> b2[k].dom().contains(u)
    } by {
        assert forall|u: Uuid| #[trigger] a2[k].dom().contains(u) implies b2[k].dom().contains(u) by {
            if key == Some(k) {
                if u != id {
                    assert(a.dom().contains(k));
                    assert(b[k].dom().contains(u));
                }
            } else {
                assert(b[k].dom().contains(u));
            }
        }
    }
}

proof fn lemma_within_devices(a: Map<Seq<u8>, Map<Uuid, Seq<char>>>, b: Map<Seq<u8>, Map<Uuid, Seq<char>>>, q: Seq<Insertion>)
    requires
        cas_within(a, b),
    ensures
        cas_within(a, with_devices(b, q)),
        cas_within(with_devices(a, q), with_devices(b, q)),
    decreases q.len(),
{
    if q.len() > 0 {
        lemma_within_devices(a, b, q.drop_last());
        let (der, id, name) = q.last();
        lemma_within_one(a, with_devices(b, q.drop_last()), der_ca_key(der), id, name);
        lemma_within_one(with_devices(a, q.drop_last()), with_devices(b, q.drop_last()), der_ca_key(der), id, name);
    }
}

proof fn lemma_within_refl(a: Map<Seq<u8>, Map<Uuid, Seq<char>>>)
    ensures
        cas_within(a, a),
{
}

/// The FIDO-certified list is part of the full list: when the full list
/// builds, the certified one builds too, and each CA it holds, with each
/// device filed under it, is in the full list.
pub proof fn lemma_certified_within_all(cas: Seq<CaEntry>)
    requires
        anchor_list_outcome(cas, false) is Ok,
    ensures
        anchor_list_outcome(cas, true) is Ok,
        cas_within(anchor_list_outcome(cas, true)->Ok_0, anchor_list_outcome(cas, false)->Ok_0),
    decreases cas.len(),
{
    if cas.len() == 0 {
        lemma_within_refl(no_cas());
    } else {
        let init = cas.drop_last();
        let e = cas.last();
        lemma_certified_within_all(init);
        let pa = anchor_insertions(init, false)->Ok_0;
        let pc = anchor_insertions(init, true)->Ok_0;
        let all0 = with_devices(no_cas(), pa);
        let cert0 = with_devices(no_cas(), pc);
        match raw_certificates(raw_value(e.raw_data)) {
            None => {},
            Some(items) => {
                let more = certificate_insertions(items, entry_uuid(e), e.device_name@)->Ok_0;
                lemma_with_devices_append(no_cas(), pa, more);
                lemma_within_devices(cert0, all0, more);
                if entry_selected(e, true) {
                    lemma_with_devices_append(no_cas(), pc, more);
                }
            },
        }
    }
}

proof fn lemma_all_selected(cas: Seq<CaEntry>)
    requires
        forall|i: int| 0 <= i < cas.len() ==> entry_selected(#[trigger] cas[i], true),
    ensures
        anchor_insertions(cas, true) == anchor_insertions(cas, false),
    decreases cas.len(),
{
    if cas.len() > 0 {
        let init = cas.drop_last();
        assert forall|i: int| 0 <= i < init.len() implies entry_selected(#[trigger] init[i], true) by {
            assert(init[i] == cas[i]);
        }
        lemma_all_selected(init);
        assert(entry_selected(cas[cas.len() - 1], true));
    }
}

proof fn lemma_none_selected(cas: Seq<CaEntry>)
    requires
        forall|i: int| 0 <= i < cas.len() ==> !entry_selected(#[trigger] cas[i], true),
    ensures
        anchor_insertions(cas, true) == Ok::<Seq<Insertion>, ErrorModel>(Seq::empty()),
    decreases cas.len(),
{
    if cas.len() > 0 {
        let init = cas.drop_last();
        assert forall|i: int| 0 <= i < init.len() implies !entry_selected(#[trigger] init[i], true) by {
            assert(init[i] == cas[i]);
        }
        lemma_none_selected(init);
        assert(!entry_selected(cas[cas.len() - 1], true));
    }
}

/// Entries whose latest status is `FIDO_CERTIFIED`, `FIDO_CERTIFIED_L1`,
/// `FIDO_CERTIFIED_L2` or `FIDO_CERTIFIED_L3` are all kept: when every
/// entry has one of these, the certified list is the full list (the same
/// CAs, or the same error).
pub proof fn lemma_certified_entries_kept(cas: Seq<CaEntry>)
    requires
        forall|i: int| 0 <= i < cas.len() ==> {
            let s = latest_status(raw_value(#[trigger] cas[i].raw_data));
            ||| s == "FIDO_CERTIFIED"@
            ||| s == "FIDO_CERTIFIED_L1"@
            ||| s == "FIDO_CERTIFIED_L2"@
            ||| s == "FIDO_CERTIFIED_L3"@
        },
    ensures
        anchor_list_outcome(cas, true) == anchor_list_outcome(cas, false),
{
    lemma_all_selected(cas);
}

/// Entries whose latest status is none of the four FIDO certification
/// levels (revoked, not certified, or no report at all) are all left out:
/// when no entry has one, the certified list holds no CA and builds
/// without error.
pub proof fn lemma_uncertified_entries_dropped(cas: Seq<CaEntry>)
    requires
        forall|i: int| 0 <= i < cas.len() ==> {
            let s = latest_status(raw_value(#[trigger] cas[i].raw_data));
            &&& s != "FIDO_CERTIFIED"@
            &&& s != "FIDO_CERTIFIED_L1"@
            &&& s != "FIDO_CERTIFIED_L2"@
            &&& s != "FIDO_CERTIFIED_L3"@
        },
    ensures
        anchor_list_outcome(cas, true) == Ok::<Map<Seq<u8>, Map<Uuid, Seq<char>>>, ErrorModel>(no_cas()),
{
    lemma_none_selected(cas);
}

proof fn lemma_planned_is_filed(plan: Seq<Insertion>, m: int, key: Seq<u8>)
    requires
        0 <= m < plan.len(),
        der_ca_key(plan[m].0) == Some(key),
    ensures
        with_devices(no_cas(), plan).dom().contains(key),
        with_devices(no_cas(), plan)[key].dom().contains(plan[m].1),
{
    let p1 = plan.take(m + 1);
    let p2 = plan.skip(m + 1);
    assert(plan =~= p1 + p2);
    assert(p1.last() == plan[m]);
    let a = with_devices(no_cas(), p1);
    lemma_within_refl(a);
    lemma_within_devices(a, a, p2);
    lemma_with_devices_append(no_cas(), p1, p2);
    assert(a.dom().contains(key));
    assert(a[key].dom().contains(plan[m].1));
}

proof fn lemma_item_inserted(items: Seq<Value>, id: Uuid, name: Seq<char>, j: int, s: Seq<char>, der: Seq<u8>)
    requires
        certificate_insertions(items, id, name) is Ok,
        0 <= j < items.len(),
        json_text(items[j]) == Some(s),
        certificate_decoding(encode_utf8(s)) == Ok::<Seq<u8>, DecodeError>(der),
    ensures
        certificate_insertions(items, id, name)->Ok_0.contains((der, id, name)),
    decreases items.len(),
{
    let init = items.drop_last();
    let q = certificate_insertions(items, id, name)->Ok_0;
    let p = certificate_insertions(init, id, name)->Ok_0;
    if j == items.len() - 1 {
        assert(q == p.push((der, id, name)));
        assert(q[p.len() as int] == (der, id, name));
    } else {
        assert(init[j] == items[j]);
        lemma_item_inserted(init, id, name, j, s, der);
        let m = choose|m: int| 0 <= m < p.len() && p[m] == (der, id, name);
        assert(q[m] == p[m]);
    }
}

proof fn lemma_entry_insertions_planned(cas: Seq<CaEntry>, certified_only: bool, i: int, items: Seq<Value>)
    requires
        anchor_insertions(cas, certified_only) is Ok,
        0 <= i < cas.len(),
        entry_selected(cas[i], certified_only),
        raw_certificates(raw_value(cas[i].raw_data)) == Some(items),
    ensures
        certificate_insertions(items, entry_uuid(cas[i]), cas[i].device_name@) is Ok,
        forall|x: Insertion| #[trigger] certificate_insertions(items, entry_uuid(cas[i]), cas[i].device_name@)->Ok_0.contains(x)
            ==> anchor_insertions(cas, certified_only)->Ok_0.contains(x),
    decreases cas.len(),
{
    let init = cas.drop_last();
    let plan = anchor_insertions(cas, certified_only)->Ok_0;
    let p = anchor_insertions(init, certified_only)->Ok_0;
    let more = certificate_insertions(items, entry_uuid(cas[i]), cas[i].device_name@)->Ok_0;
    if i == cas.len() - 1 {
        assert(plan == p + more);
        assert forall|x: Insertion| #[trigger] more.contains(x) implies plan.contains(x) by {
            let m = choose|m: int| 0 <= m < more.len() && more[m] == x;
            assert(plan[p.len() + m] == x);
        }
    } else {
        assert(init[i] == cas[i]);
        lemma_entry_insertions_planned(init, certified_only, i, items);
        assert forall|x: Insertion| #[trigger] more.contains(x) implies plan.contains(x) by {
            assert(p.contains(x));
            let m = choose|m: int| 0 <= m < p.len() && p[m] == x;
            let e = cas.last();
            if entry_selected(e, certified_only) {
                if let Some(its) = raw_certificates(raw_value(e.raw_data)) {
                    let more2 = certificate_insertions(its, entry_uuid(e), e.device_name@)->Ok_0;
                    assert(plan == p + more2);
                }
            }
            assert(plan[m] == x);
        }
    }
}

/// Every certificate of every entry that takes part is filed: when a list
/// builds, each string item of an entry's `attestationRootCertificates`
/// that decodes to a certificate with a CA key puts that CA in the list,
/// with the entry's device filed under it; none of an entry's certificates
/// is passed over.
pub proof fn lemma_every_certificate_filed(
    cas: Seq<CaEntry>,
    certified_only: bool,
    i: int,
    items: Seq<Value>,
    j: int,
    s: Seq<char>,
    der: Seq<u8>,
    key: Seq<u8>,
)
    requires
        anchor_list_outcome(cas, certified_only) is Ok,
        0 <= i < cas.len(),
        entry_selected(cas[i], certified_only),
        opt_items(opt_member(opt_member(raw_value(cas[i].raw_data), "metadataStatement"@), "attestationRootCertificates"@))
            == Some(items),
        0 <= j < items.len(),
        json_text(items[j]) == Some(s),
        certificate_decoding(encode_utf8(s)) == Ok::<Seq<u8>, DecodeError>(der),
        der_ca_key(der) == Some(key),
    ensures
        anchor_list_outcome(cas, certified_only)->Ok_0.dom().contains(key),
        anchor_list_outcome(cas, certified_only)->Ok_0[key].dom().contains(entry_uuid(cas[i])),
{
    let id = entry_uuid(cas[i]);
    let name = cas[i].device_name@;
    let plan = anchor_insertions(cas, certified_only)->Ok_0;
    lemma_entry_insertions_planned(cas, certified_only, i, items);
    lemma_item_inserted(items, id, name, j, s, der);
    assert(plan.contains((der, id, name)));
    let m = choose|m: int| 0 <= m < plan.len() && plan[m] == (der, id, name);
    lemma_planned_is_filed(plan, m, key);
}

/// Whether entry `i` of `cas` takes part in the list and the string item `j`
/// of its `metadataStatement.attestationRootCertificates` decodes to the DER
/// bytes `der`.
pub open spec fn entry_certificate(cas: Seq<CaEntry>, certified_only: bool, i: int, j: int, der: Seq<u8>) -> bool {
    let items = opt_items(
        opt_member(opt_member(raw_value(cas[i].raw_data), "metadataStatement"@), "attestationRootCertificates"@),
    );
    &&& 0 <= i < cas.len()
    &&& entry_selected(cas[i], certified_only)
    &&& items is Some
    &&& 0 <= j < items->Some_0.len()
    &&& json_text(items->Some_0[j]) is Some
    &&& certificate_decoding(encode_utf8(json_text(items->Some_0[j])->Some_0)) == Ok::<Seq<u8>, DecodeError>(der)
}

proof fn lemma_filed_was_planned(plan: Seq<Insertion>, key: Seq<u8>, u: Uuid) -> (m: int)
    requires
        with_devices(no_cas(), plan).dom().contains(key),
        with_devices(no_cas(), plan)[key].dom().contains(u),
    ensures
        0 <= m < plan.len(),
        der_ca_key(plan[m].0) == Some(key),
        plan[m].1 == u,
        with_devices(no_cas(), plan)[key][u] == plan[m].2,
    decreases plan.len(),
{
    let init = plan.drop_last();
    let (der, id, name) = plan.last();
    if der_ca_key(der) == Some(key) && id == u {
        (plan.len() - 1) as int
    } else {
        let before = with_devices(no_cas(), init);
        if der_ca_key(der) == Some(key) {
            assert(before.dom().contains(key));
        }
        let m = lemma_filed_was_planned(init, key, u);
        assert(plan[m] == init[m]);
        m
    }
}

proof fn lemma_inserted_item(items: Seq<Value>, id: Uuid, name: Seq<char>, m: int) -> (j: int)
    requires
        certificate_insertions(items, id, name) is Ok,
        0 <= m < certificate_insertions(items, id, name)->Ok_0.len(),
    ensures
        0 <= j < items.len(),
        json_text(items[j]) is Some,
        certificate_decoding(encode_utf8(json_text(items[j])->Some_0))
            == Ok::<Seq<u8>, DecodeError>(certificate_insertions(items, id, name)->Ok_0[m].0),
        certificate_insertions(items, id, name)->Ok_0[m].1 == id,
        certificate_insertions(items, id, name)->Ok_0[m].2 == name,
    decreases items.len(),
{
    let init = items.drop_last();
    let q = certificate_insertions(items, id, name)->Ok_0;
    let p = certificate_insertions(init, id, name)->Ok_0;
    if m < p.len() {
        let j = lemma_inserted_item(init, id, name, m);
        assert(init[j] == items[j]);
        assert(q[m] == p[m]);
        j
    } else {
        (items.len() - 1) as int
    }
}

proof fn lemma_planned_certificate(cas: Seq<CaEntry>, certified_only: bool, m: int) -> (r: (int, int))
    requires
        anchor_insertions(cas, certified_only) is Ok,
        0 <= m < anchor_insertions(cas, certified_only)->Ok_0.len(),
    ensures
        entry_certificate(cas, certified_only, r.0, r.1, anchor_insertions(cas, certified_only)->Ok_0[m].0),
        anchor_insertions(cas, certified_only)->Ok_0[m].1 == entry_uuid(cas[r.0]),
        anchor_insertions(cas, certified_only)->Ok_0[m].2 == cas[r.0].device_name@,
    decreases cas.len(),
{
    let init = cas.drop_last();
    let plan = anchor_insertions(cas, certified_only)->Ok_0;
    let p = anchor_insertions(init, certified_only)->Ok_0;
    if m < p.len() {
        let r = lemma_planned_certificate(init, certified_only, m);
        assert(init[r.0] == cas[r.0]);
        let e = cas.last();
        if entry_selected(e, certified_only) {
            if let Some(its) = raw_certificates(raw_value(e.raw_data)) {
                let more = certificate_insertions(its, entry_uuid(e), e.device_name@)->Ok_0;
                assert(plan == p + more);
            }
        }
        assert(plan[m] == p[m]);
        r
    } else {
        let i = cas.len() - 1;
        let e = cas.last();
        let items = raw_certificates(raw_value(e.raw_data))->Some_0;
        let more = certificate_insertions(items, entry_uuid(e), e.device_name@)->Ok_0;
        assert(plan == p + more);
        assert(plan[m] == more[m - p.len()]);
        let j = lemma_inserted_item(items, entry_uuid(e), e.device_name@, m - p.len());
        (i as int, j)
    }
}

/// A list holds nothing but the certificates of the entries that take
/// part: each CA in it has the key of a certificate that a string item of
/// such an entry's `attestationRootCertificates` decodes to, each device
/// under it is the device of such an entry, and the name filed for it is
/// that entry's device name.
pub proof fn lemma_every_filed_ca_has_a_certificate(cas: Seq<CaEntry>, certified_only: bool, key: Seq<u8>, u: Uuid)
    requires
        anchor_list_outcome(cas, certified_only) is Ok,
        anchor_list_outcome(cas, certified_only)->Ok_0.dom().contains(key),
        anchor_list_outcome(cas, certified_only)->Ok_0[key].dom().contains(u),
    ensures
        exists|i: int, j: int, der: Seq<u8>|
            {
                &&& #[trigger] entry_certificate(cas, certified_only, i, j, der)
                &&& der_ca_key(der) == Some(key)
                &&& entry_uuid(cas[i]) == u
                &&& anchor_list_outcome(cas, certified_only)->Ok_0[key][u] == cas[i].device_name@
            },
{
    let plan = anchor_insertions(cas, certified_only)->Ok_0;
    let m = lemma_filed_was_planned(plan, key, u);
    let r = lemma_planned_certificate(cas, certified_only, m);
    assert(entry_certificate(cas, certified_only, r.0, r.1, plan[m].0));
}

/// How a device is identified: an `aaguid` that parses as a UUID is the
/// identifier itself (FIDO2), and one that does not parse counts as none;
/// without one, the `aaid` string of the raw metadata gives the version-5
/// UUID of its bytes in the DNS namespace (U2F); with neither, the
/// identifier is the nil UUID.
pub proof fn lemma_entry_uuid_sources(e: CaEntry)
    ensures
        match opt_string_view(e.aaguid) {
            Some(s) => match uuid_parse(s) {
                Some(u) => entry_uuid(e) == u,
                None => entry_uuid(e) == entry_uuid((CaEntry { aaguid: None, ..e })),
            },
            None => match opt_text(opt_member(raw_value(e.raw_data), "aaid"@)) {
                Some(a) => entry_uuid(e) == uuid_v5_dns(encode_utf8(a)),
                None => entry_uuid(e) == uuid_from_bits(0),
            },
        },
{
}

/// An entry without status reports (no `statusReports` array, or an empty
/// one) never takes part in the certified list.
pub proof fn lemma_unreported_entry_not_certified(e: CaEntry)
    requires
        opt_items(opt_member(raw_value(e.raw_data), "statusReports"@)) matches Some(r) ==> r.len() == 0,
    ensures
        !entry_selected(e, true),
{
    reveal_strlit("");
    assert(latest_status(raw_value(e.raw_data)) == Seq::<char>::empty());
    reveal_strlit("FIDO_CERTIFIED");
    reveal_strlit("FIDO_CERTIFIED_L1");
    reveal_strlit("FIDO_CERTIFIED_L2");
    reveal_strlit("FIDO_CERTIFIED_L3");
}

/// Filing the same certificate for the same device twice is filing it once:
/// the list holds no duplicates.
pub proof fn lemma_same_certificate_once(
    cas: Map<Seq<u8>, Map<Uuid, Seq<char>>>,
    der: Seq<u8>,
    id: Uuid,
    name: Seq<char>,
)
    ensures
        with_device(with_device(cas, der_ca_key(der), id, name), der_ca_key(der), id, name)
            == with_device(cas, der_ca_key(der), id, name),
{
    let once = with_device(cas, der_ca_key(der), id, name);
    let twice = with_device(once, der_ca_key(der), id, name);
    if let Some(k) = der_ca_key(der) {
        assert(once[k].insert(id, name) =~= once[k]);
        assert(twice =~= once);
    }
}

/// An entry without an attestation root certificate array adds nothing to
/// a list, whatever the filter.
pub proof fn lemma_entry_without_certificates(cas: Seq<CaEntry>, e: CaEntry, certified_only: bool)
    requires
        raw_certificates(raw_value(e.raw_data)) is None,
    ensures
        anchor_list_outcome(cas.push(e), certified_only) == anchor_list_outcome(cas, certified_only),
{
    assert(cas.push(e).drop_last() =~= cas);
}

/// The same AAID always maps to the same identifier: two entries whose
/// AAGUID is missing or does not parse, and whose raw metadata hold the same
/// `aaid` string, get the same UUID.
pub proof fn lemma_same_aaid_same_uuid(a: CaEntry, b: CaEntry)
    requires
        opt_string_view(a.aaguid) matches Some(s) ==> uuid_parse(s) is None,
        opt_string_view(b.aaguid) matches Some(s) ==> uuid_parse(s) is None,
        opt_text(opt_member(raw_value(a.raw_data), "aaid"@)) is Some,
        opt_text(opt_member(raw_value(a.raw_data), "aaid"@)) == opt_text(
            opt_member(raw_value(b.raw_data), "aaid"@),
        ),
    ensures
        entry_uuid(a) == entry_uuid(b),
{
}

/// A list holds at most one CA per filed certificate: the CA map of a plan
/// is finite and has no more keys than the plan has insertions.
pub proof fn lemma_cas_bounded_by_plan(plan: Seq<Insertion>)
    ensures
        with_devices(no_cas(), plan).dom().finite(),
        with_devices(no_cas(), plan).dom().len() <= plan.len(),
    decreases plan.len(),
{
    if plan.len() == 0 {
        assert(no_cas().dom() =~= Set::<Seq<u8>>::empty());
    } else {
        lemma_cas_bounded_by_plan(plan.drop_last());
        let m = with_devices(no_cas(), plan.drop_last());
        let (der, id, name) = plan.last();
        if let Some(k) = der_ca_key(der) {
            assert(with_device(m, der_ca_key(der), id, name).dom() =~= m.dom().insert(k));
        }
    }
}

} // verus!
