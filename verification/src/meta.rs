//! The name and the version under which this tool marks what it manages.

use vstd::prelude::*;

verus! {

/// The name of the tool: the prefix of its label and annotation keys, and
/// its field manager.
pub const CRATE_NAME: &'static str = "kube-release";

/// The version of the tool, recorded on everything it writes.
pub const CRATE_VERSION: &'static str = "0.1.0";

} // verus!
