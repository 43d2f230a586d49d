//! `x509-parser`: the validity period of a DER certificate.
use vstd::prelude::*;
use x509_parser::prelude::{FromDer, X509Certificate};

verus! {

/// What `X509Certificate::from_der` gives for the bytes, reduced to the Unix
/// timestamps of `validity().not_before` and `validity().not_after`;
/// `None` when the bytes do not parse.
pub uninterp spec fn x509_validity(der: Seq<u8>) -> Option<(i64, i64)>;

/// Parses a DER certificate and reads the two ends of its validity period.
#[verifier::external_body]
pub(crate) fn certificate_validity(der: &[u8]) -> (res: Option<(i64, i64)>)
    ensures
        res == x509_validity(der@),
{
    match X509Certificate::from_der(der) {
        Ok((_, cert)) => Some((cert.validity().not_before.timestamp(), cert.validity().not_after.timestamp())),
        Err(_) => None,
    }
}

} // verus!
