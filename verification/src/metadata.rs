//! Version metadata of the treeboot implementation.

use vstd::prelude::*;
use crate::text::concat4;

verus! {

/// treeboot spec version implemented by this crate.
pub const SPEC_VERSION: &'static str = "1.9.0";

/// treeboot package name used for product-level version reporting.
pub const TREEBOOT_PACKAGE: &'static str = "treeboot";

/// treeboot package version, released in lockstep with this crate.
pub const TREEBOOT_VERSION: &'static str = "0.1.0";

/// treeboot version metadata.
#[derive(Debug, Clone, Copy, PartialEq, Eq)]
pub struct VersionInfo {
    /// Package name.
    pub package: &'static str,
    /// Package version.
    pub version: &'static str,
    /// Implemented treeboot spec version.
    pub spec_version: &'static str,
}

/// Returns version metadata for a package implementing treeboot.
pub fn version_info(package: &'static str, version: &'static str) -> (res: VersionInfo)
    ensures
        res.package == package,
        res.version == version,
        res.spec_version@ == SPEC_VERSION@,
{
    VersionInfo { package, version, spec_version: SPEC_VERSION }
}

/// Returns product-level treeboot version metadata.
pub fn treeboot_version_info() -> (res: VersionInfo)
    ensures
        res.package@ == TREEBOOT_PACKAGE@,
        res.version@ == TREEBOOT_VERSION@,
        res.spec_version@ == SPEC_VERSION@,
{
    version_info(TREEBOOT_PACKAGE, TREEBOOT_VERSION)
}

/// Returns the treeboot version summary used by CLI version flags:
/// `"{version} (spec {spec_version})"`.
pub fn treeboot_version_summary() -> (res: String)
    ensures
        res@ == TREEBOOT_VERSION@ + " (spec "@ + SPEC_VERSION@ + ")"@,
{
    concat4(TREEBOOT_VERSION, " (spec ", SPEC_VERSION, ")")
}

} // verus!
