//! `webauthn-rs`: the builder of an attestation CA list and the list it builds.
//!
//! Both hold a map from a CA's key id (the SHA-256 digest of its DER form)
//! to the devices trusted under it, each device an AAGUID with an English
//! description. The names below give that map for a builder and for a list.
//! They leave out what else the crate keeps: the localised descriptions
//! (always empty here), the blanket-allow flag (always off for a CA filed
//! through the builder) and which parsed certificate object is kept for a
//! key (the first one filed).
use std::collections::BTreeMap;
use uuid::Uuid;
use vstd::prelude::*;
use webauthn_rs::prelude::{AttestationCaList, AttestationCaListBuilder};

verus! {

#[verifier::external_type_specification]
#[verifier::external_body]
pub struct ExAttestationCaListBuilder(webauthn_rs::prelude::AttestationCaListBuilder);

#[verifier::external_type_specification]
#[verifier::external_body]
pub struct ExAttestationCaList(webauthn_rs::prelude::AttestationCaList);

/// The CAs that a builder holds: key id to (AAGUID to English description).
pub uninterp spec fn builder_cas(b: AttestationCaListBuilder) -> Map<Seq<u8>, Map<Uuid, Seq<char>>>;

/// The CAs that a list holds: key id to (AAGUID to English description).
pub uninterp spec fn list_cas(l: AttestationCaList) -> Map<Seq<u8>, Map<Uuid, Seq<char>>>;

/// The key id under which `insert_device_der` files a DER certificate: the
/// SHA-256 digest that openssl computes of the parsed certificate; `None`
/// when openssl refuses the bytes or the digest.
pub uninterp spec fn der_ca_key(der: Seq<u8>) -> Option<Seq<u8>>;

/// The empty CA map.
pub open spec fn no_cas() -> Map<Seq<u8>, Map<Uuid, Seq<char>>> {
    Map::empty()
}

/// The CA map after filing `aaguid` with `description` under `key`, when
/// there is a key; unchanged when there is none.
pub open spec fn with_device(
    cas: Map<Seq<u8>, Map<Uuid, Seq<char>>>,
    key: Option<Seq<u8>>,
    aaguid: Uuid,
    description: Seq<char>,
) -> Map<Seq<u8>, Map<Uuid, Seq<char>>> {
    match key {
        Some(k) => {
            let devices = if cas.dom().contains(k) {
                cas[k]
            } else {
                Map::empty()
            };
            cas.insert(k, devices.insert(aaguid, description))
        },
        None => cas,
    }
}

/// `AttestationCaListBuilder::new`: no CA yet.
#[verifier::external_body]
pub(crate) fn new_builder() -> (res: AttestationCaListBuilder)
    ensures
        builder_cas(res) == no_cas(),
{
    AttestationCaListBuilder::new()
}

/// `AttestationCaListBuilder::insert_device_der` with no localised
/// descriptions. It returns whether the certificate was accepted; a refused
/// one leaves the builder as it was.
#[verifier::external_body]
pub(crate) fn insert_device_der(
    builder: &mut AttestationCaListBuilder,
    der: &[u8],
    aaguid: Uuid,
    description: String,
) -> (accepted: bool)
    ensures
        accepted == der_ca_key(der@) is Some,
        builder_cas(*final(builder)) == with_device(
            builder_cas(*old(builder)),
            der_ca_key(der@),
            aaguid,
            description@,
        ),
{
    builder.insert_device_der(der, aaguid, description, BTreeMap::new()).is_ok()
}

/// `AttestationCaListBuilder::build`: the list holds the builder's CAs.
#[verifier::external_body]
pub(crate) fn build_list(builder: AttestationCaListBuilder) -> (res: AttestationCaList)
    ensures
        list_cas(res) == builder_cas(builder),
{
    builder.build()
}

} // verus!
