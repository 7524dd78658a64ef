//! Logical window geometry and the shell's sizing rules.

use vstd::prelude::*;

verus! {

/// A rectangle in logical compositor coordinates.
#[derive(Clone, Copy, Debug, PartialEq, Eq, Structural)]
pub struct Rect {
    pub x: i32,
    pub y: i32,
    pub width: i32,
    pub height: i32,
}

/// A size in logical compositor coordinates.
#[derive(Clone, Copy, Debug, PartialEq, Eq, Structural)]
pub struct Size {
    pub width: i32,
    pub height: i32,
}

/// The vertical position and height of a window.
#[derive(Clone, Copy, Debug, PartialEq, Eq, Structural)]
pub struct VerticalExtent {
    pub y: i32,
    pub height: i32,
}

impl Rect {
    pub fn new(x: i32, y: i32, width: i32, height: i32) -> (rect: Rect)
        ensures
            rect == (Rect { x, y, width, height }),
    {
        Rect { x, y, width, height }
    }

    pub fn size(&self) -> (size: Size)
        ensures
            size == (Size { width: self.width, height: self.height }),
    {
        Size { width: self.width, height: self.height }
    }

    pub fn same(&self, other: &Rect) -> (same: bool)
        ensures
            same == (*self == *other),
    {
        self.x == other.x && self.y == other.y && self.width == other.width && self.height
            == other.height
    }
}

/// Width of the frame the embedded shell draws around a server-decorated
/// window; it must match the shell's own frame metric.
pub const SHELL_FRAME_BORDER: i32 = 1;

/// The value a dimension takes within client size hints, where a hint of
/// zero (or less) means that side is unbounded and no dimension falls below one.
pub open spec fn spec_constrain_dimension(value: i32, minimum: i32, maximum: i32) -> i32 {
    let lower = if minimum > 1 { minimum } else { 1 };
    let raised = if value > lower { value } else { lower };
    if maximum > 0 {
        let upper = if maximum > lower { maximum } else { lower };
        if raised < upper { raised } else { upper }
    } else {
        raised
    }
}

/// Constrains one dimension to a client's minimum and maximum size hints.
pub fn constrain_dimension(value: i32, minimum: i32, maximum: i32) -> (constrained: i32)
    ensures
        constrained == spec_constrain_dimension(value, minimum, maximum),
        constrained >= 1,
        constrained >= minimum,
        maximum >= minimum && maximum >= 1 ==> constrained <= maximum,
        (value >= minimum && value >= 1 && (maximum <= 0 || value <= maximum)) ==> constrained == value,
{
    let lower = if minimum > 1 { minimum } else { 1 };
    let raised = if value > lower { value } else { lower };
    if maximum > 0 {
        let upper = if maximum > lower { maximum } else { lower };
        if raised < upper { raised } else { upper }
    } else {
        raised
    }
}

/// Keeps a rectangle's position and raises each side of its size to at least one.
pub fn bound_geometry_size(geometry: Rect) -> (bounded: Rect)
    ensures
        bounded == (Rect {
            width: spec_constrain_dimension(geometry.width, 1, 0),
            height: spec_constrain_dimension(geometry.height, 1, 0),
            ..geometry
        }),
        bounded.width == (if geometry.width >= 1 { geometry.width } else { 1 }),
        bounded.height == (if geometry.height >= 1 { geometry.height } else { 1 }),
{
    Rect {
        x: geometry.x,
        y: geometry.y,
        width: constrain_dimension(geometry.width, 1, 0),
        height: constrain_dimension(geometry.height, 1, 0),
    }
}

/// The size a configure grants: exactly the request when the compositor owns
/// the geometry, otherwise the request within the client's size hints.
pub fn configured_window_size(requested: Size, minimum: Size, maximum: Size, compositor_owned: bool) -> (size: Size)
    ensures
        compositor_owned ==> size == requested,
        !compositor_owned ==> size == (Size {
            width: spec_constrain_dimension(requested.width, minimum.width, maximum.width),
            height: spec_constrain_dimension(requested.height, minimum.height, maximum.height),
        }),
{
    if compositor_owned {
        requested
    } else {
        Size {
            width: constrain_dimension(requested.width, minimum.width, maximum.width),
            height: constrain_dimension(requested.height, minimum.height, maximum.height),
        }
    }
}

/// Whether the shell insets a frame of this size by its border.
pub open spec fn frame_has_border_room(frame: Rect) -> bool {
    frame.width > SHELL_FRAME_BORDER * 2 && frame.height > SHELL_FRAME_BORDER * 2
}

/// The content rectangle inside a frame: inset by the shell border on every
/// side when the shell draws a server-side frame and the frame has room for it.
pub open spec fn spec_shell_content_geometry(frame: Rect, server_side_decorated: bool) -> Rect {
    if server_side_decorated && frame_has_border_room(frame) {
        Rect {
            x: (frame.x + SHELL_FRAME_BORDER) as i32,
            y: (frame.y + SHELL_FRAME_BORDER) as i32,
            width: (frame.width - SHELL_FRAME_BORDER * 2) as i32,
            height: (frame.height - SHELL_FRAME_BORDER * 2) as i32,
        }
    } else {
        frame
    }
}

pub fn shell_content_geometry(frame: Rect, server_side_decorated: bool) -> (content: Rect)
    requires
        server_side_decorated && frame_has_border_room(frame) ==> frame.x < i32::MAX && frame.y < i32::MAX,
    ensures
        content == spec_shell_content_geometry(frame, server_side_decorated),
{
    let mut content = frame;
    if server_side_decorated && frame.width > SHELL_FRAME_BORDER * 2 && frame.height
        > SHELL_FRAME_BORDER * 2 {
        content.x = content.x + SHELL_FRAME_BORDER;
        content.y = content.y + SHELL_FRAME_BORDER;
        content.width = content.width - SHELL_FRAME_BORDER * 2;
        content.height = content.height - SHELL_FRAME_BORDER * 2;
    }
    content
}

/// The content of a maximized frame: the shell reserves its border only when
/// it both draws the frame and a managed layout owns the geometry.
pub fn maximized_shell_content_geometry(frame: Rect, server_side_decorated: bool, managed_layout: bool) -> (content: Rect)
    requires
        server_side_decorated && managed_layout && frame_has_border_room(frame) ==> frame.x < i32::MAX
            && frame.y < i32::MAX,
    ensures
        content == spec_shell_content_geometry(frame, server_side_decorated && managed_layout),
{
    shell_content_geometry(frame, server_side_decorated && managed_layout)
}

/// A configure that repeats the current target of a client-fullscreen window
/// only echoes the state already granted, so the client state is kept.
pub fn preserves_client_fullscreen_geometry(client_fullscreen: bool, current_target: Rect, requested_target: Rect) -> (preserves: bool)
    ensures
        preserves == (client_fullscreen && current_target == requested_target),
{
    client_fullscreen && current_target.same(&requested_target)
}

/// A window whose geometry is owned by a layout or the shell rejects a
/// non-exact configure that would move it away from its current target.
pub fn authoritative_geometry_rejects_configure(geometry_owned: bool, current_target: Rect, requested_target: Rect) -> (rejects: bool)
    ensures
        rejects == (geometry_owned && current_target != requested_target),
{
    geometry_owned && !current_target.same(&requested_target)
}

/// One coordinate moved from a source output's origin to a destination
/// output's origin, saturated to the coordinate range.
pub open spec fn spec_translated_coordinate(coordinate: i32, source: i32, destination: i32) -> i32 {
    let moved = coordinate - source + destination;
    if moved < i32::MIN {
        i32::MIN
    } else if moved > i32::MAX {
        i32::MAX
    } else {
        moved as i32
    }
}

pub fn translated_coordinate(coordinate: i32, source: i32, destination: i32) -> (moved: i32)
    ensures
        moved == spec_translated_coordinate(coordinate, source, destination),
{
    let moved: i64 = coordinate as i64 - source as i64 + destination as i64;
    if moved < i32::MIN as i64 {
        i32::MIN
    } else if moved > i32::MAX as i64 {
        i32::MAX
    } else {
        moved as i32
    }
}

/// A restore rectangle carried from one output to another: its position keeps
/// the same offset from the output origin, its size is unchanged.
pub open spec fn spec_translated_restore_geometry(restore: Rect, source_output: Rect, destination_output: Rect) -> Rect {
    Rect {
        x: spec_translated_coordinate(restore.x, source_output.x, destination_output.x),
        y: spec_translated_coordinate(restore.y, source_output.y, destination_output.y),
        ..restore
    }
}

pub fn translated_restore_geometry(restore: Rect, source_output: Rect, destination_output: Rect) -> (moved: Rect)
    ensures
        moved == spec_translated_restore_geometry(restore, source_output, destination_output),
{
    Rect {
        x: translated_coordinate(restore.x, source_output.x, destination_output.x),
        y: translated_coordinate(restore.y, source_output.y, destination_output.y),
        width: restore.width,
        height: restore.height,
    }
}

} // verus!
