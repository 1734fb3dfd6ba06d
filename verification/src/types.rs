//! Plain state shared between the library and the application shell:
//! modes, selections, toggles and the events the panel sends.
use vstd::prelude::*;

verus! {

/// Whether the skeleton is rebuilt automatically or edited by hand.
#[derive(Clone, Copy, PartialEq, Eq, Debug, Structural)]
pub enum GenerationMode {
    Auto,
    Manual,
}

impl Default for GenerationMode {
    fn default() -> (m: GenerationMode)
        ensures
            m == GenerationMode::Auto,
    {
        GenerationMode::Auto
    }
}

/// Which part of the skeleton a manual edit targets.
#[derive(Clone, Copy, PartialEq, Eq, Debug, Structural)]
pub enum EditMode {
    Boundary,
    Generators,
    Circumcenters,
    Roads,
}

impl Default for EditMode {
    fn default() -> (m: EditMode)
        ensures
            m == EditMode::Boundary,
    {
        EditMode::Boundary
    }
}

/// The seed the current city was generated from.
pub struct Seed(pub u64);

/// The skeleton point under the cursor, if any.
pub struct HoveredPoint(pub Option<usize>);

impl Default for HoveredPoint {
    fn default() -> (h: HoveredPoint)
        ensures
            h.0 == None::<usize>,
    {
        HoveredPoint(None)
    }
}

/// The skeleton point picked for editing, if any.
pub struct SelectedPoint(pub Option<usize>);

impl Default for SelectedPoint {
    fn default() -> (s: SelectedPoint)
        ensures
            s.0 == None::<usize>,
    {
        SelectedPoint(None)
    }
}

/// Marks the root of a generated town and records its seed.
pub struct Town {
    pub seed: u64,
}

/// Whether debug gizmos are drawn.
pub struct GizmosVisible(pub bool);

/// Whether buildings are shown extruded rather than as flat footprints.
pub struct Is3D(pub bool);

/// Whether the control panel is drawn. Toggled with F1 so the city can be
/// viewed unobstructed.
pub struct UiVisible(pub bool);

impl UiVisible {
    /// Flips visibility when the toggle key was just pressed.
    pub fn handle_toggle_key(&mut self, just_pressed: bool)
        ensures
            final(self).0 == if just_pressed {
                !old(self).0
            } else {
                old(self).0
            },
    {
        if just_pressed {
            self.0 = !self.0;
        }
    }
}

/// Rebuild while a slider is still being dragged, rather than on release.
/// Off by default: a drag would otherwise rebuild the whole city every frame.
pub struct LiveUpdate(pub bool);

impl Default for LiveUpdate {
    fn default() -> (l: LiveUpdate)
        ensures
            !l.0,
    {
        LiveUpdate(false)
    }
}

/// Result of the most recent export, shown under the button.
pub struct ExportStatus(pub String);

impl Default for ExportStatus {
    fn default() -> (s: ExportStatus)
        ensures
            s.0@ == Seq::<char>::empty(),
    {
        ExportStatus(String::new())
    }
}

/// Asks for the town to be regenerated.
pub struct RegenerateEvent {
    pub seed: u64,
    /// The change came from dragging a skeleton point by hand.
    pub user_edit: bool,
    /// Set when a parameter that shapes the Voronoi skeleton changed (boundary,
    /// generator count, merge threshold). Params that only affect subdivision or
    /// materials can leave this false and reuse the existing skeleton, which is
    /// much cheaper.
    pub rebuild_skeleton: bool,
}

/// Asks for the city to be written to an OBJ file.
pub struct ExportEvent {
    pub filename: String,
}

/// What a block reserved as open space becomes.
#[derive(Clone, Copy, PartialEq, Eq, Debug, Structural)]
pub enum OpenSpaceKind {
    Park,
    Plaza,
}

} // verus!
