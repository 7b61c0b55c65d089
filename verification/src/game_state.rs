use vstd::prelude::*;

verus! {

/// The game's view mode: the 3D scene, or the 2D map overlay.
#[derive(Clone, Copy, Debug, PartialEq, Eq, Structural)]
pub struct ViewState {
    /// True while the 2D map overlay is shown.
    pub viewing_map: bool,
}

/// What the overlay toggle does to the view mode.
pub open spec fn spec_toggled(v: ViewState) -> ViewState {
    ViewState { viewing_map: !v.viewing_map }
}

impl ViewState {
    /// Start in the 3D view.
    pub fn new() -> (r: ViewState)
        ensures
            !r.viewing_map,
    {
        ViewState { viewing_map: false }
    }

    /// Toggle between the 3D view and the map overlay.
    pub fn toggle_map_view(&mut self)
        ensures
            *final(self) == spec_toggled(*old(self)),
    {
        self.viewing_map = !self.viewing_map;
    }
}

/// Toggling the map overlay twice returns to the original view mode, so
/// the scene rendered afterwards is the one rendered before.
pub proof fn lemma_toggle_twice(v: ViewState)
    ensures
        spec_toggled(spec_toggled(v)) == v,
{
}

} // verus!
