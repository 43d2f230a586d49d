//! Attestation trust anchors from the FIDO Metadata Service (MDS3) blob.
//!
//! The blob, a JWT, is parsed into certificate-authority records
//! ([`parser::parse_blob`]); from those, attestation CA lists for WebAuthn
//! servers are built, of all trust anchors or of FIDO-certified
//! authenticators only ([`build_ca_list_from_blob`]).
use crate::constants::EMBEDDED_JWT;
use crate::error::{ErrorModel, FidoMds3AttestationCaError};
use crate::ext::anchors::list_cas;
use crate::parser::{blob_outcome, parse_blob};
use crate::trust::anchor_list_outcome;
use crate::types::{entries_model, AttestationFilter, ParsedBlob};
use std::sync::Arc;
use vstd::prelude::*;
use vstd::string::*;
use webauthn_rs::prelude::AttestationCaList;

pub mod constants;
pub mod downloader;
pub mod error;
pub mod ext;
pub mod loader;
pub mod location;
pub mod parser;
pub mod text;
pub mod trust;
pub mod types;

verus! {

/// The blob built into the crate, parsed; an empty blob when it does not
/// parse. In this build there is no snapshot, so the list is empty.
///
/// Each call parses the snapshot anew and returns a new `Arc`; a caller
/// that wants one shared value for the whole process keeps the first
/// result (the command-line tool does so in a lazily set static).
pub fn embedded_ca_list() -> (res: Arc<ParsedBlob>)
    ensures
        match blob_outcome(EMBEDDED_JWT.spec_bytes()) {
            Ok(records) => entries_model(res.cas@) == records && res.total_entries
                == res.cas@.len(),
            Err(_) => res.cas@.len() == 0 && res.total_entries == 0,
        },
        res.cas@.len() == 0,
{
    proof {
        reveal_strlit("");
        assert(EMBEDDED_JWT@ =~= Seq::<char>::empty());
        assert(EMBEDDED_JWT.spec_bytes() =~= Seq::<u8>::empty());
        assert(crate::text::split_bytes(Seq::<u8>::empty(), 46).len() == 1);
    }
    match parse_blob(EMBEDDED_JWT) {
        Ok(parsed) => Arc::new(parsed),
        Err(_) => Arc::new(ParsedBlob::default()),
    }
}

/// Whether a filter keeps FIDO-certified authenticators only.
pub open spec fn certified_only(filter: AttestationFilter) -> bool {
    filter == AttestationFilter::FidoCertifiedTrustAnchorsOnly
}

/// The error text for a failed build under a filter.
pub open spec fn extraction_failure(filter: AttestationFilter) -> Seq<char> {
    if certified_only(filter) {
        "Failed to extract FIDO certified trust anchors"@
    } else {
        "Failed to extract trust anchors."@
    }
}

/// Builds the attestation CA list that `filter` asks for from a loaded blob.
///
/// A failed load is returned as it is. `TrustAnchors` builds the list of all
/// trust anchors, `FidoCertifiedTrustAnchorsOnly` that of FIDO-certified
/// authenticators; a failed build becomes an extraction error.
pub fn build_ca_list_from_blob(
    filter: AttestationFilter,
    loaded: Result<Arc<ParsedBlob>, FidoMds3AttestationCaError>,
) -> (res: Result<AttestationCaList, FidoMds3AttestationCaError>)
    ensures
        match loaded {
            Err(e) => res matches Err(r) && r == e,
            Ok(blob) => match anchor_list_outcome(blob.cas@, certified_only(filter)) {
                Ok(cas) => res matches Ok(list) && list_cas(list) == cas,
                Err(_) => res matches Err(r) && r@ == ErrorModel::Extraction(
                    extraction_failure(filter),
                ),
            },
        },
{
    let blob = match loaded {
        Ok(b) => b,
        Err(e) => {
            return Err(e);
        },
    };
    match filter {
        AttestationFilter::TrustAnchors => match blob.build_attestation_trust_anchors() {
            Ok(list) => Ok(list),
            Err(_) => Err(
                FidoMds3AttestationCaError::ExtractionError(
                    String::from_str("Failed to extract trust anchors."),
                ),
            ),
        },
        AttestationFilter::FidoCertifiedTrustAnchorsOnly => match blob.build_fido_certified_trust_anchors() {
            Ok(list) => Ok(list),
            Err(_) => Err(
                FidoMds3AttestationCaError::ExtractionError(
                    String::from_str("Failed to extract FIDO certified trust anchors"),
                ),
            ),
        },
    }
}

} // verus!
