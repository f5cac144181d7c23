//! Versions of the formats that the program writes.

use vstd::prelude::*;

verus! {

/// The version of trace events and reports.
pub const SCHEMA_VERSION: u32 = 1;

/// The version of the policy profiles.
pub const PROFILE_VERSION: u32 = 1;

/// The program's own version.
pub open spec fn spec_shadox_version() -> Seq<char> {
    "0.1.0"@
}

/// The program's own version.
pub fn shadox_version() -> (v: String)
    ensures
        v@ == spec_shadox_version(),
{
    "0.1.0".to_string()
}

} // verus!
