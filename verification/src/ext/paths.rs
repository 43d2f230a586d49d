//! `std::path::PathBuf`: joining paths and writing them out.
use std::path::PathBuf;
use vstd::prelude::*;

verus! {

#[verifier::external_type_specification]
#[verifier::external_body]
pub struct ExPathBuf(std::path::PathBuf);

/// What `Path::display` writes for a path.
pub uninterp spec fn path_text(p: PathBuf) -> Seq<char>;

/// What `Path::join` gives for a path and a relative component.
pub uninterp spec fn path_joined(base: PathBuf, part: Seq<char>) -> PathBuf;

/// `Path::join` with a component: the result is the one named by `path_joined`.
#[verifier::external_body]
pub(crate) fn join_path(base: &PathBuf, part: &str) -> (res: PathBuf)
    ensures
        res == path_joined(*base, part@),
{
    base.join(part)
}

/// The `Display` text of `path.display()`.
#[verifier::external_body]
pub(crate) fn path_message(p: &PathBuf) -> (res: String)
    ensures
        res@ == path_text(*p),
{
    format!("{}", p.display())
}

} // verus!
