//! Plain data handed across the supervisor's boundary: an installed runtime
//! version as the discovery step reports it, and a scanned project's
//! metadata. Discovery and scanning themselves are I/O and live in the
//! embedding program; these types carry their results.

use vstd::prelude::*;

verus! {

/// One installed runtime version: its tag, its install path, and whether it
/// came from the version manager or was added by hand.
pub struct NodeVersion {
    pub version: String,
    pub path: String,
    pub source: String,
}

impl NodeVersion {
    pub fn new(version: String, path: String, source: String) -> (r: NodeVersion)
        ensures
            r.version@ == version@,
            r.path@ == path@,
            r.source@ == source@,
    {
        NodeVersion { version, path, source }
    }
}

/// A scanned project: its display name, the script names its manifest
/// defines, and its directory.
pub struct ProjectInfo {
    pub name: String,
    pub scripts: Vec<String>,
    pub path: String,
}

impl ProjectInfo {
    pub fn new(name: String, scripts: Vec<String>, path: String) -> (r: ProjectInfo)
        ensures
            r.name@ == name@,
            r.scripts@ == scripts@,
            r.path@ == path@,
    {
        ProjectInfo { name, scripts, path }
    }
}

} // verus!
