//! State of the settings panel.
use vstd::prelude::*;

verus! {

/// Local state of the settings panel, which draws and edits the render
/// settings each frame; it keeps nothing between frames yet.
pub struct Gui {}

impl Gui {
    pub fn new() -> (r: Self) {
        Gui {}
    }
}

} // verus!
