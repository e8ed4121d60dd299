use vstd::prelude::*;

verus! {

/// The strip of open request tabs.
pub struct TabBar {}

impl TabBar {
    pub fn new() -> (r: Self) {
        TabBar {}
    }
}

impl Default for TabBar {
    fn default() -> (r: Self) {
        TabBar::new()
    }
}

} // verus!
