//! The command-line switches.
use vstd::prelude::*;

verus! {

/// Launch the configured wallpapers, or open the editor.
#[derive(Debug, Clone, Copy, PartialEq, Eq, Structural)]
pub struct Args {
    /// Launch the wallpapers of the profile instead of opening the editor.
    pub use_config: bool,
}

} // verus!
