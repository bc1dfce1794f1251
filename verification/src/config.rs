//! Settings that the staging logic reads.

use vstd::prelude::*;

verus! {

/// Where transcribed text is delivered.
#[derive(Debug, Clone, Copy, PartialEq, Eq, Structural)]
pub enum OutputMode {
    /// Typed into the field that has the focus.
    TypeIntoField,
    /// Copied to the clipboard.
    Clipboard,
    /// Typed, then copied.
    Both,
}

} // verus!
