//! Driver versions, and the table of ioctls of each.

pub mod v535_129_03;
pub mod v595_58_03;

use vstd::prelude::*;

use crate::version::DriverVersion;

verus! {

/// The version that is supported: 535.129.03.
pub open spec fn supported_version() -> DriverVersion {
    DriverVersion { major: 535, minor: 129, patch: 3 }
}

/// The version that is supported: 535.129.03.
pub fn supported() -> (r: DriverVersion)
    ensures
        r == supported_version(),
{
    DriverVersion::new(535, 129, 3)
}

/// Whether a version is supported.  Only an exact match is.
pub fn is_supported(v: DriverVersion) -> (r: bool)
    ensures
        r == (v == supported_version()),
{
    v == supported()
}

} // verus!
