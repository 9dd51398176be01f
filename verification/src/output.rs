//! Where rendered output goes.

use vstd::prelude::*;

verus! {

/// The destination of a rendering: the console, or a file at a path.
pub enum OutputTarget {
    Console,
    File(String),
}

/// Sends renderings to its target.
pub struct OutputController {
    pub target: OutputTarget,
}

} // verus!
