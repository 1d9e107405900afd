//! The opt-out marker: a file in the home directory of a user who wants no
//! profile made.

use vstd::prelude::*;
use vstd::string::*;

verus! {

/// What looking for the marker of one home directory came to.
#[derive(Clone, Copy, Debug, PartialEq, Eq, Structural)]
pub enum Probe {
    /// The marker is there.
    Found,
    /// The marker is not there.
    Missing,
    /// Whether the marker is there could not be found out.
    Failed,
}

/// The path of the marker, seen from a home directory.
pub open spec fn marker_suffix() -> Seq<char> {
    "/.nofinger"@
}

/// The path at which the marker of a home directory stands.
pub open spec fn marker_path(home_dir: Seq<char>) -> Seq<char> {
    home_dir + marker_suffix()
}

/// The path to look at to see whether the owner of `home_dir` opted out.
pub fn nofinger_path(home_dir: &str) -> (r: String)
    ensures
        r@ == marker_path(home_dir@),
{
    String::from_str(home_dir).concat("/.nofinger")
}

/// Whether a user opted out, going by the probe of their home directory. Only
/// a marker that was seen counts: a probe that failed leaves the user in.
pub fn no_finger(probe: Probe) -> (r: bool)
    ensures
        r == (probe == Probe::Found),
{
    match probe {
        Probe::Found => true,
        Probe::Missing => false,
        Probe::Failed => false,
    }
}

} // verus!
