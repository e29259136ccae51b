use vstd::prelude::*;

verus! {

/// What can receive pointer or keyboard input: a window, a layer surface
/// or a popup, each given by its surface and the client that owns it.
#[derive(Clone, Copy, Debug, PartialEq, Eq, Structural)]
pub enum FocusTarget {
    Window { surface: u64, client: u64 },
    LayerSurface { surface: u64, client: u64 },
    Popup { surface: u64, client: u64 },
}

impl FocusTarget {
    pub open spec fn surface_spec(self) -> u64 {
        match self {
            FocusTarget::Window { surface, .. } => surface,
            FocusTarget::LayerSurface { surface, .. } => surface,
            FocusTarget::Popup { surface, .. } => surface,
        }
    }

    pub open spec fn client_spec(self) -> u64 {
        match self {
            FocusTarget::Window { client, .. } => client,
            FocusTarget::LayerSurface { client, .. } => client,
            FocusTarget::Popup { client, .. } => client,
        }
    }

    /// The surface that receives the input.
    pub fn wl_surface(&self) -> (r: u64)
        ensures
            r == self.surface_spec(),
    {
        match self {
            FocusTarget::Window { surface, .. } => *surface,
            FocusTarget::LayerSurface { surface, .. } => *surface,
            FocusTarget::Popup { surface, .. } => *surface,
        }
    }

    /// Whether the target belongs to `client`.
    pub fn same_client_as(&self, client: u64) -> (r: bool)
        ensures
            r == (self.client_spec() == client),
    {
        match self {
            FocusTarget::Window { client: c, .. } => *c == client,
            FocusTarget::LayerSurface { client: c, .. } => *c == client,
            FocusTarget::Popup { client: c, .. } => *c == client,
        }
    }
}

} // verus!
