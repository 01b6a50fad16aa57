//! The types an embedding host supplies.
use vstd::prelude::*;

verus! {

/// Values that the adapter stores and hands back without looking inside.
pub trait HostTypes: Sized {
    /// The embedded application's handle to one of its windows.
    type Handle;
    /// A display shared between the adapter and its windows.
    type Display;
    /// The texture atlas shared with the renderer.
    type Atlas;
    /// An immutable, renderer-ready scene.
    type Snapshot;
    /// The text field that receives composed text.
    type InputHandler;
    /// Asks the application for a frame.
    type FrameCallback;
    /// Delivers an input event and returns the answer.
    type InputCallback;
    /// Delivers a flag that changed.
    type FlagCallback;
    /// Delivers a new size and scale.
    type ResizeCallback;
    /// Delivers a bare notification.
    type UnitCallback;
    /// Asks whether a window may close.
    type ShouldCloseCallback;
    /// Announces that a window closed.
    type CloseCallback;
    /// Asks which window control is under the pointer.
    type HitTestCallback;
    /// Content of the clipboard.
    type ClipboardItem;
    /// Builds a retained root again after the device was replaced.
    type RootFactory;
}

} // verus!
