//! penGui: an immediate-mode user-interface library.
//!
//! This crate holds the verified core of the library: component identifiers,
//! the layout status lattice, the immediate-mode reconciliation of the
//! children of containers between frames, the widgets' discrete state, and
//! the discrete parts of input and rendering state.

pub mod children;
pub mod component_id;
pub mod controls;
pub mod draw;
pub mod events;
pub mod frame_counter;
pub mod global_container;
pub mod layout;
pub mod render;
pub mod text;

pub use children::{Child, ChildList, ChildQuery, Slot};
pub use component_id::{CodeLocation, ComponentId, UniqueId};
pub use controls::{CheckState, ClickState};
pub use draw::{text_index_buffer, DrawMode, TextureId};
pub use events::{EventResponse, InputEvent, Key, MouseButton, PressedState};
pub use frame_counter::FrameCounter;
pub use global_container::{ContainedWidget, GlobalContainer};
pub use layout::{LayoutStatus, Objective};
pub use render::{DebugRendering, PolygonMode, TextureSource};
pub use text::{edit_text, send_text_event};
