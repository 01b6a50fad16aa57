//! Cursor shapes and window backgrounds.
use vstd::prelude::*;

verus! {

/// A cursor shape requested by the embedded application.
#[derive(Clone, Copy, Debug, PartialEq, Eq, Structural)]
pub enum CursorStyle {
    Arrow,
    IBeam,
    Crosshair,
    ClosedHand,
    OpenHand,
    PointingHand,
    ResizeLeft,
    ResizeRight,
    ResizeLeftRight,
    ResizeUp,
    ResizeDown,
    ResizeUpDown,
    ResizeUpLeftDownRight,
    ResizeUpRightDownLeft,
    ResizeColumn,
    ResizeRow,
    IBeamCursorForVerticalLayout,
    OperationNotAllowed,
    DragLink,
    DragCopy,
    ContextualMenu,
}

/// A cursor shape of the host's window system.
#[derive(Clone, Copy, Debug, PartialEq, Eq, Structural)]
pub enum SystemCursorIcon {
    Default,
    Text,
    Crosshair,
    Grabbing,
    Grab,
    Pointer,
    WResize,
    EResize,
    EwResize,
    NResize,
    SResize,
    NsResize,
    NwseResize,
    NeswResize,
    ColResize,
    RowResize,
    VerticalText,
    NotAllowed,
    Alias,
    Copy,
    ContextMenu,
}

/// The host shape for a requested shape.
pub open spec fn system_cursor(style: CursorStyle) -> SystemCursorIcon {
    match style {
        CursorStyle::Arrow => SystemCursorIcon::Default,
        CursorStyle::IBeam => SystemCursorIcon::Text,
        CursorStyle::Crosshair => SystemCursorIcon::Crosshair,
        CursorStyle::ClosedHand => SystemCursorIcon::Grabbing,
        CursorStyle::OpenHand => SystemCursorIcon::Grab,
        CursorStyle::PointingHand => SystemCursorIcon::Pointer,
        CursorStyle::ResizeLeft => SystemCursorIcon::WResize,
        CursorStyle::ResizeRight => SystemCursorIcon::EResize,
        CursorStyle::ResizeLeftRight => SystemCursorIcon::EwResize,
        CursorStyle::ResizeUp => SystemCursorIcon::NResize,
        CursorStyle::ResizeDown => SystemCursorIcon::SResize,
        CursorStyle::ResizeUpDown => SystemCursorIcon::NsResize,
        CursorStyle::ResizeUpLeftDownRight => SystemCursorIcon::NwseResize,
        CursorStyle::ResizeUpRightDownLeft => SystemCursorIcon::NeswResize,
        CursorStyle::ResizeColumn => SystemCursorIcon::ColResize,
        CursorStyle::ResizeRow => SystemCursorIcon::RowResize,
        CursorStyle::IBeamCursorForVerticalLayout => SystemCursorIcon::VerticalText,
        CursorStyle::OperationNotAllowed => SystemCursorIcon::NotAllowed,
        CursorStyle::DragLink => SystemCursorIcon::Alias,
        CursorStyle::DragCopy => SystemCursorIcon::Copy,
        CursorStyle::ContextualMenu => SystemCursorIcon::ContextMenu,
    }
}

/// Maps a requested cursor shape to the host's.
pub fn map_cursor_style(style: CursorStyle) -> (r: SystemCursorIcon)
    ensures
        r == system_cursor(style),
{
    match style {
        CursorStyle::Arrow => SystemCursorIcon::Default,
        CursorStyle::IBeam => SystemCursorIcon::Text,
        CursorStyle::Crosshair => SystemCursorIcon::Crosshair,
        CursorStyle::ClosedHand => SystemCursorIcon::Grabbing,
        CursorStyle::OpenHand => SystemCursorIcon::Grab,
        CursorStyle::PointingHand => SystemCursorIcon::Pointer,
        CursorStyle::ResizeLeft => SystemCursorIcon::WResize,
        CursorStyle::ResizeRight => SystemCursorIcon::EResize,
        CursorStyle::ResizeLeftRight => SystemCursorIcon::EwResize,
        CursorStyle::ResizeUp => SystemCursorIcon::NResize,
        CursorStyle::ResizeDown => SystemCursorIcon::SResize,
        CursorStyle::ResizeUpDown => SystemCursorIcon::NsResize,
        CursorStyle::ResizeUpLeftDownRight => SystemCursorIcon::NwseResize,
        CursorStyle::ResizeUpRightDownLeft => SystemCursorIcon::NeswResize,
        CursorStyle::ResizeColumn => SystemCursorIcon::ColResize,
        CursorStyle::ResizeRow => SystemCursorIcon::RowResize,
        CursorStyle::IBeamCursorForVerticalLayout => SystemCursorIcon::VerticalText,
        CursorStyle::OperationNotAllowed => SystemCursorIcon::NotAllowed,
        CursorStyle::DragLink => SystemCursorIcon::Alias,
        CursorStyle::DragCopy => SystemCursorIcon::Copy,
        CursorStyle::ContextualMenu => SystemCursorIcon::ContextMenu,
    }
}

/// Different requested shapes are shown differently.
pub proof fn law_cursor_shapes_stay_apart(a: CursorStyle, b: CursorStyle)
    ensures
        system_cursor(a) == system_cursor(b) ==> a == b,
{
}

/// What shows behind the embedded application's own drawing.
#[derive(Clone, Copy, Debug, PartialEq, Eq, Structural)]
pub enum WindowBackgroundAppearance {
    Opaque,
    Transparent,
    Blurred,
    MicaBackdrop,
    MicaAltBackdrop,
}

impl WindowBackgroundAppearance {
    /// Whether the host window has to be transparent.
    pub open spec fn is_transparent_spec(self) -> bool {
        !(self is Opaque)
    }

    /// Whether the host window has to be transparent.
    pub fn is_transparent(self) -> (r: bool)
        ensures
            r == self.is_transparent_spec(),
    {
        match self {
            WindowBackgroundAppearance::Opaque => false,
            _ => true,
        }
    }

    /// Whether the appearance asks for a material the host cannot draw.
    pub open spec fn needs_material_spec(self) -> bool {
        self is Blurred || self is MicaBackdrop || self is MicaAltBackdrop
    }

    /// Whether the appearance asks for a material the host cannot draw.
    pub fn needs_material(self) -> (r: bool)
        ensures
            r == self.needs_material_spec(),
    {
        match self {
            WindowBackgroundAppearance::Blurred
            | WindowBackgroundAppearance::MicaBackdrop
            | WindowBackgroundAppearance::MicaAltBackdrop => true,
            _ => false,
        }
    }
}

/// Each host shape is shown for the one requested shape that means the same: an edge or
/// corner for the resize in its direction, a hand for the hand, text for the beam.
pub proof fn law_cursor_shapes_keep_their_meaning(style: CursorStyle)
    ensures
        system_cursor(style) is Default <==> style is Arrow,
        system_cursor(style) is Text <==> style is IBeam,
        system_cursor(style) is Crosshair <==> style is Crosshair,
        system_cursor(style) is Grabbing <==> style is ClosedHand,
        system_cursor(style) is Grab <==> style is OpenHand,
        system_cursor(style) is Pointer <==> style is PointingHand,
        system_cursor(style) is WResize <==> style is ResizeLeft,
        system_cursor(style) is EResize <==> style is ResizeRight,
        system_cursor(style) is EwResize <==> style is ResizeLeftRight,
        system_cursor(style) is NResize <==> style is ResizeUp,
        system_cursor(style) is SResize <==> style is ResizeDown,
        system_cursor(style) is NsResize <==> style is ResizeUpDown,
        system_cursor(style) is NwseResize <==> style is ResizeUpLeftDownRight,
        system_cursor(style) is NeswResize <==> style is ResizeUpRightDownLeft,
        system_cursor(style) is ColResize <==> style is ResizeColumn,
        system_cursor(style) is RowResize <==> style is ResizeRow,
        system_cursor(style) is VerticalText <==> style is IBeamCursorForVerticalLayout,
        system_cursor(style) is NotAllowed <==> style is OperationNotAllowed,
        system_cursor(style) is Alias <==> style is DragLink,
        system_cursor(style) is Copy <==> style is DragCopy,
        system_cursor(style) is ContextMenu <==> style is ContextualMenu,
{
}

/// A host window is opaque behind an opaque background alone, and what it has to be
/// beyond that, a material, it cannot draw.
pub proof fn law_only_opaque_hides_what_is_behind(appearance: WindowBackgroundAppearance)
    ensures
        appearance.is_transparent_spec() <==> appearance is Transparent || appearance is Blurred
            || appearance is MicaBackdrop || appearance is MicaAltBackdrop,
        appearance.needs_material_spec() <==> !(appearance is Opaque)
            && !(appearance is Transparent),
        appearance.needs_material_spec() ==> appearance.is_transparent_spec(),
{
}

} // verus!
