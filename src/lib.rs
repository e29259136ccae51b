//! Core of a Wayland compositor: window placement, interactive move and
//! resize grabs, the resize acknowledgment handshake, shell request
//! handling and per-frame render planning, over plain integer models.

pub mod geometry;
pub mod table;
pub mod edges;
pub mod resize_state;
pub mod grabs;
pub mod window;
pub mod space;
pub mod focus;
pub mod fullscreen;
pub mod shell;
pub mod render;
pub mod error;
pub mod config;

pub use geometry::{Point, Size, Rectangle};
pub use table::SideTable;
pub use edges::ResizeEdge;
pub use resize_state::{ResizeData, ResizeState, ResizeStates};
pub use grabs::{GrabStartData, MoveSurfaceGrab, ResizeSurfaceGrab};
pub use window::{AvWindow, WindowKind, ToplevelState, Configure};
pub use space::{Space, Placed, OutputEntry};
pub use focus::FocusTarget;
pub use fullscreen::FullscreenSurfaces;
pub use shell::{Navda, PointerGrab, ActiveGrab, LayerSurface};
pub use render::{CustomElement, RenderItem, FramePlan, PresentationFeedback, RenderError, ErrorAction};
pub use error::{Traceable, SourceLocation, compare_errors, AvError, TraceableError, Indentable};
pub use config::{XdgBaseDir, ClientState, Config};
