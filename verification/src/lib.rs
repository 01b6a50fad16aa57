//! Decisions and state of retained-mode overlays embedded in a host application.
//!
//! The library holds what an adapter between an embedded user interface and its
//! host has to decide: who owns input, where roots are shown, what a window asks of
//! its host, when the application is started anew, and how scenes are drawn. Calls
//! into the host and into the embedded application are made by the code around it.

pub mod bridge;
pub mod contexts;
pub mod cursor;
pub mod dispatcher;
pub mod display;
pub mod geometry;
pub mod host;
pub mod ids;
pub mod image;
pub mod input;
pub mod input_state;
pub mod keys;
pub mod platform;
pub mod plugin;
pub mod render;
pub mod routing;
pub mod runtime;
pub mod scalar;
pub mod scene;
pub mod steps;
pub mod sync;
pub mod text;
pub mod window;

pub use contexts::{
    GpuiContext, GpuiContexts, GpuiRuntimeStatus, GpuiViewHandle, PrimaryGpuiContext,
};
pub use image::GpuiBevyImage;
pub use input_state::{gpui_wants_keyboard_input, gpui_wants_pointer_input, GpuiInputState};
pub use plugin::{GpuiAccessibility, GpuiPlugin, GpuiRenderOrder, GpuiSystems};
pub use scene::GpuiScene;
