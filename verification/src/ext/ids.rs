//! `uuid`: parsing a UUID from text, name-based version-5 UUIDs and UUIDs
//! made from their 128 bits.
use uuid::Uuid;
use vstd::prelude::*;

verus! {

#[verifier::external_type_specification]
#[verifier::external_body]
pub struct ExUuid(uuid::Uuid);

/// What `Uuid::parse_str` gives for a text, `None` for a parse error.
pub uninterp spec fn uuid_parse(text: Seq<char>) -> Option<Uuid>;

/// What `Uuid::new_v5(&Uuid::NAMESPACE_DNS, name)` gives.
pub uninterp spec fn uuid_v5_dns(name: Seq<u8>) -> Uuid;

/// What `Uuid::from_u128` gives; the nil UUID is the one of all-zero bits.
pub uninterp spec fn uuid_from_bits(bits: u128) -> Uuid;

/// `Uuid::parse_str`, its error dropped.
#[verifier::external_body]
pub(crate) fn parse_uuid(text: &str) -> (res: Option<Uuid>)
    ensures
        res == uuid_parse(text@),
{
    Uuid::parse_str(text).ok()
}

/// `Uuid::new_v5` in the DNS namespace.
#[verifier::external_body]
pub(crate) fn uuid_v5_in_dns(name: &[u8]) -> (res: Uuid)
    ensures
        res == uuid_v5_dns(name@),
{
    Uuid::new_v5(&Uuid::NAMESPACE_DNS, name)
}

/// `Uuid::from_u128`.
#[verifier::external_body]
pub(crate) fn uuid_of_bits(bits: u128) -> (res: Uuid)
    ensures
        res == uuid_from_bits(bits),
{
    Uuid::from_u128(bits)
}

} // verus!
