//! Classification of a fetched archive by its file name. The byte-level
//! decoders live outside the library; this module only decides which of them
//! applies, from the lower-cased name suffix alone — there is no content
//! sniffing.

use crate::strutil::lower_ends_with;
use crate::strutil::lower_seq;
use crate::strutil::spec_ends_with;
use vstd::prelude::*;

verus! {

/// The archive formats the pipeline accepts.
#[derive(Copy, Clone, Eq, PartialEq, Structural, Debug)]
pub enum ArchiveKind {
    Zip,
    TarGz,
    Tar,
}

/// The archive kind a file name classifies as, if any: the decision is made
/// on the ASCII lower case of the name, testing the `.zip`, `.tar.gz`/`.tgz`
/// and `.tar` suffixes in that order.
pub open spec fn spec_archive_kind(name: Seq<char>) -> Option<ArchiveKind> {
    let lower = lower_seq(name);
    if spec_ends_with(lower, ".zip"@) {
        Some(ArchiveKind::Zip)
    } else if spec_ends_with(lower, ".tar.gz"@) || spec_ends_with(lower, ".tgz"@) {
        Some(ArchiveKind::TarGz)
    } else if spec_ends_with(lower, ".tar"@) {
        Some(ArchiveKind::Tar)
    } else {
        None
    }
}

/// Classify an archive file name; `None` is the unsupported-format case and
/// aborts the run at the caller.
pub fn archive_kind(name: &str) -> (r: Option<ArchiveKind>)
    ensures
        r == spec_archive_kind(name@),
{
    if lower_ends_with(name, ".zip") {
        Some(ArchiveKind::Zip)
    } else if lower_ends_with(name, ".tar.gz") || lower_ends_with(name, ".tgz") {
        Some(ArchiveKind::TarGz)
    } else if lower_ends_with(name, ".tar") {
        Some(ArchiveKind::Tar)
    } else {
        None
    }
}

} // verus!
