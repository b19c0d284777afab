//! The compositor reads scripts can make.

use vstd::prelude::*;

verus! {

/// A slice of compositor state a script can read.
#[derive(Clone, Copy, Debug, PartialEq, Eq, Hash, Structural)]
pub enum Updates {
    Workspaces,
    ActiveWorkspace,
    Monitors,
    ActiveMonitor,
    Windows,
    ActiveWindow,
}

} // verus!
