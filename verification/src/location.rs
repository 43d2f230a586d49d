//! Where the metadata blob lives: `<data dir>/fido_mds3_attestation_ca/ca_list.jwt`
//! under the user's local data directory, or the roaming one when there is
//! no local one.
use crate::constants::BLOB_FILE_NAME;
use crate::error::{ErrorModel, FidoMds3AttestationCaError};
use crate::ext::paths::{join_path, path_joined};
use std::path::PathBuf;
use vstd::prelude::*;
use vstd::string::*;

verus! {

/// Name of the application directory under the user's data directory.
pub const APP_DIR_NAME: &'static str = "fido_mds3_attestation_ca";

/// What resolving the blob location from the local and the roaming data
/// directories gives: the application directory and the blob path under it.
pub open spec fn blob_location_outcome(local_data_dir: Option<PathBuf>, data_dir: Option<PathBuf>) -> Result<(PathBuf, PathBuf), ErrorModel> {
    let base = match local_data_dir {
        Some(d) => Some(d),
        None => data_dir,
    };
    match base {
        None => Err(ErrorModel::UniversalPath("Could not determine local data directory from OS environment"@)),
        Some(b) => {
            let app_dir = path_joined(b, APP_DIR_NAME@);
            Ok((app_dir, path_joined(app_dir, BLOB_FILE_NAME@)))
        },
    }
}

/// The application directory and the blob path under the user's local data
/// directory, or else under the roaming data directory; an error when the
/// system gives neither.
pub fn blob_location(local_data_dir: Option<PathBuf>, data_dir: Option<PathBuf>) -> (res: Result<(PathBuf, PathBuf), FidoMds3AttestationCaError>)
    ensures
        match blob_location_outcome(local_data_dir, data_dir) {
            Ok(paths) => res == Ok::<(PathBuf, PathBuf), FidoMds3AttestationCaError>(paths),
            Err(e) => res matches Err(r) && r@ == e,
        },
{
    let base = match local_data_dir {
        Some(d) => Some(d),
        None => data_dir,
    };
    match base {
        None => Err(FidoMds3AttestationCaError::UniversalPathError(String::from_str(
            "Could not determine local data directory from OS environment",
        ))),
        Some(b) => {
            let app_dir = join_path(&b, APP_DIR_NAME);
            let full_path = join_path(&app_dir, BLOB_FILE_NAME);
            Ok((app_dir, full_path))
        },
    }
}

/// The error for an application directory that could not be created,
/// given the file system's reason.
pub fn app_dir_creation_error(reason: String) -> (res: FidoMds3AttestationCaError)
    ensures
        res@ == ErrorModel::UniversalPath("FileSystem Error: "@ + reason@),
{
    let mut m = String::from_str("FileSystem Error: ");
    m.append(reason.as_str());
    FidoMds3AttestationCaError::UniversalPathError(m)
}

} // verus!
