//! Constants of the crate.
use vstd::prelude::*;

verus! {

/// URL of the FIDO MDS3 blob.
pub const BLOB_URL: &'static str = "https://mds3.fidoalliance.org/";

/// File name under which the blob is stored.
pub const BLOB_FILE_NAME: &'static str = "ca_list.jwt";

/// The blob snapshot built into the crate: none in this build, so the
/// embedded fallback is an empty list.
pub const EMBEDDED_JWT: &'static str = "";

} // verus!
