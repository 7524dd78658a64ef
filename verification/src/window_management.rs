//! Shell window-management policy: what maximize and fullscreen toggles do
//! to a window's geometry and presentation, and how client state requests
//! and grabs are admitted.
//!
//! Each decision is taken from plain facts about the window; the caller
//! resolves outputs, configures the client and tells Flutter.

use vstd::prelude::*;

use crate::geometry::{
    authoritative_geometry_rejects_configure, bound_geometry_size, configured_window_size,
    preserves_client_fullscreen_geometry, spec_constrain_dimension, spec_translated_restore_geometry,
    translated_restore_geometry, Rect, Size, VerticalExtent,
};
use crate::frontend::{FrontendView, WaylandFrontend};
use crate::presentation::{lemma_geometries_related_weaken, ShellFullscreenUnderlay, spec_fullscreen, spec_geometries_related, ShellFixedMaximizeTransition, ShellFullscreenExit, ShellWindowPresentation};
use crate::topology::OutputId;
use crate::window_registry::WindowRecord;

verus! {

/// The shell-side action that mirrors a window's new state.
#[derive(Clone, Copy, Debug, PartialEq, Eq, Structural)]
pub enum WindowAction {
    Maximize,
    Restore,
    Fullscreen,
    Minimize,
}

/// Who decides a window's geometry after a change.
#[derive(Clone, Copy, Debug, PartialEq, Eq, Structural)]
pub enum GeometryAuthority {
    /// The shell placed it (maximized or fullscreen).
    Shell,
    /// The client may size itself again.
    Pending,
}

/// A window's rectangle with each side raised to at least one.
pub open spec fn bounded(geometry: Rect) -> Rect {
    Rect {
        width: if geometry.width >= 1 { geometry.width } else { 1 },
        height: if geometry.height >= 1 { geometry.height } else { 1 },
        ..geometry
    }
}

/// What toggling maximize does to a window the shell places itself.
#[derive(Clone, Copy, Debug, PartialEq, Eq, Structural)]
pub enum MaximizeToggle {
    /// Restore the window to `target`; a managed layout rearranges instead.
    Restore { target: Rect },
    /// Maximize, remembering `normal_geometry`, at `known_target` when it is known
    /// already, else at the maximized geometry of the window's output. When
    /// that cannot be found, `previous` is the presentation to put back.
    Maximize { normal_geometry: Rect, known_target: Option<Rect>, previous: Option<ShellWindowPresentation> },
}

/// The maximize toggle of a window, with its shell presentation, the
/// client's own state, its remembered restore geometry and its current
/// geometry. The second result says whether the restore geometry is used up.
pub open spec fn spec_maximize_toggle(
    presentation: Option<ShellWindowPresentation>,
    client_fullscreen: bool,
    client_maximized: bool,
    restore_geometry: Option<Rect>,
    current: Rect,
) -> (MaximizeToggle, bool) {
    match presentation {
        Some(shell) => {
            let transition = match shell {
                ShellWindowPresentation::Maximized { normal_geometry } if client_fullscreen => {
                    ShellFixedMaximizeTransition::SelectMaximized { normal_geometry, existing_geometry: None }
                },
                _ => shell.spec_toggle_fixed_maximize(),
            };
            match transition {
                ShellFixedMaximizeTransition::RestoreNormal { geometry } => (
                    MaximizeToggle::Restore { target: bounded(geometry) },
                    true,
                ),
                ShellFixedMaximizeTransition::SelectMaximized { normal_geometry, existing_geometry } => (
                    MaximizeToggle::Maximize {
                        normal_geometry,
                        known_target: match existing_geometry {
                            Some(existing) => Some(bounded(existing)),
                            None => None,
                        },
                        previous: presentation,
                    },
                    false,
                ),
            }
        },
        None => {
            let remembered = match restore_geometry {
                Some(geometry) => geometry,
                None => current,
            };
            if client_fullscreen {
                (MaximizeToggle::Maximize { normal_geometry: remembered, known_target: None, previous: None }, true)
            } else if client_maximized {
                (MaximizeToggle::Restore { target: bounded(remembered) }, true)
            } else {
                (MaximizeToggle::Maximize { normal_geometry: bounded(current), known_target: None, previous: None }, false)
            }
        },
    }
}

/// Decides the maximize toggle of a window the shell places. Returns the
/// toggle and whether the remembered restore geometry is used up.
pub fn plan_maximize_toggle(
    presentation: Option<ShellWindowPresentation>,
    client_fullscreen: bool,
    client_maximized: bool,
    restore_geometry: Option<Rect>,
    current: Rect,
) -> (plan: (MaximizeToggle, bool))
    ensures
        plan == spec_maximize_toggle(presentation, client_fullscreen, client_maximized, restore_geometry, current),
{
    match presentation {
        Some(shell) => {
            let transition = match shell {
                ShellWindowPresentation::Maximized { normal_geometry } if client_fullscreen => {
                    ShellFixedMaximizeTransition::SelectMaximized { normal_geometry, existing_geometry: None }
                },
                _ => shell.toggle_fixed_maximize(),
            };
            match transition {
                ShellFixedMaximizeTransition::RestoreNormal { geometry } => (
                    MaximizeToggle::Restore { target: bound_geometry_size(geometry) },
                    true,
                ),
                ShellFixedMaximizeTransition::SelectMaximized { normal_geometry, existing_geometry } => (
                    MaximizeToggle::Maximize {
                        normal_geometry,
                        known_target: match existing_geometry {
                            Some(existing) => Some(bound_geometry_size(existing)),
                            None => None,
                        },
                        previous: presentation,
                    },
                    false,
                ),
            }
        },
        None => {
            let remembered = match restore_geometry {
                Some(geometry) => geometry,
                None => current,
            };
            if client_fullscreen {
                (MaximizeToggle::Maximize { normal_geometry: remembered, known_target: None, previous: None }, true)
            } else if client_maximized {
                (MaximizeToggle::Restore { target: bound_geometry_size(remembered) }, true)
            } else {
                (MaximizeToggle::Maximize { normal_geometry: bound_geometry_size(current), known_target: None, previous: None }, false)
            }
        },
    }
}

/// The shell presentation a window has after a maximize toggle succeeded.
pub open spec fn presentation_after_maximize_toggle(toggle: MaximizeToggle) -> Option<ShellWindowPresentation> {
    match toggle {
        MaximizeToggle::Restore { .. } => None,
        MaximizeToggle::Maximize { normal_geometry, .. } => Some(ShellWindowPresentation::Maximized { normal_geometry }),
    }
}

/// Toggling maximize twice on a window of positive size that neither the
/// shell nor the client had maximized puts it back where it was, with no
/// shell presentation left.
pub proof fn law_maximize_toggle_round_trip(current: Rect, restore_geometry: Option<Rect>)
    requires
        current.width >= 1,
        current.height >= 1,
    ensures
        ({
            let (first, _) = spec_maximize_toggle(None, false, false, restore_geometry, current);
            let (second, _) = spec_maximize_toggle(
                presentation_after_maximize_toggle(first),
                false,
                false,
                restore_geometry,
                current,
            );
            &&& first matches MaximizeToggle::Maximize { .. }
            &&& second == MaximizeToggle::Restore { target: current }
            &&& presentation_after_maximize_toggle(second) is None
        }),
{
}

/// What toggling maximize does to a window a scrolling layout places.
#[derive(Clone, Copy, Debug, PartialEq, Eq, Structural)]
pub enum ScrollingMaximize {
    /// The window's geometry is locked and it is not fullscreen: nothing changes.
    Locked,
    /// The layout's maximized slot becomes `maximized`. `change_layout` says
    /// whether the slot has to change for that, and `leave_fullscreen`
    /// whether the window's shell fullscreen is dropped.
    Toggle { maximized: bool, change_layout: bool, leave_fullscreen: bool },
}

pub open spec fn spec_scrolling_maximize(fullscreen: bool, geometry_locked: bool, layout_maximized: bool) -> ScrollingMaximize {
    if !fullscreen && geometry_locked {
        ScrollingMaximize::Locked
    } else {
        let maximized = fullscreen || !layout_maximized;
        ScrollingMaximize::Toggle {
            maximized,
            change_layout: layout_maximized != maximized,
            leave_fullscreen: fullscreen,
        }
    }
}

/// Decides the maximize toggle of a window in a scrolling layout, from
/// whether it is fullscreen, whether its geometry is locked and whether the
/// layout has it maximized: a fullscreen window leaves fullscreen into the
/// layout's maximized slot, any other window flips that slot.
pub fn plan_scrolling_maximize(fullscreen: bool, geometry_locked: bool, layout_maximized: bool) -> (plan: ScrollingMaximize)
    ensures
        plan == spec_scrolling_maximize(fullscreen, geometry_locked, layout_maximized),
{
    if !fullscreen && geometry_locked {
        return ScrollingMaximize::Locked;
    }
    let maximized = fullscreen || !layout_maximized;
    ScrollingMaximize::Toggle { maximized, change_layout: layout_maximized != maximized, leave_fullscreen: fullscreen }
}

/// Toggling maximize twice on a scrolling-layout window that is neither
/// fullscreen nor geometry-locked flips the layout's maximized slot and then
/// flips it back.
pub proof fn law_scrolling_maximize_round_trip(layout_maximized: bool)
    ensures
        spec_scrolling_maximize(false, false, layout_maximized) == (ScrollingMaximize::Toggle {
            maximized: !layout_maximized,
            change_layout: true,
            leave_fullscreen: false,
        }),
        spec_scrolling_maximize(false, false, !layout_maximized) == (ScrollingMaximize::Toggle {
            maximized: layout_maximized,
            change_layout: true,
            leave_fullscreen: false,
        }),
{
}

/// How a window leaves shell fullscreen.
#[derive(Clone, Copy, Debug, PartialEq, Eq, Structural)]
pub enum FullscreenExit {
    /// Back to its normal geometry.
    Normal { target: Rect },
    /// Back into its scrolling layout's maximized slot.
    LayoutMaximized { target: Rect },
    /// Back to shell maximize, remembering `normal_geometry`: at `known_target`
    /// when known, else at the output's maximized geometry. When that cannot
    /// be found, `previous` is the presentation to put back.
    ShellMaximized { normal_geometry: Rect, known_target: Option<Rect>, previous: Option<ShellWindowPresentation> },
    /// Not a shell fullscreen: back to the remembered or current geometry,
    /// maximized when its layout keeps it maximized.
    Unmanaged { target: Rect, layout_maximized: bool },
}

/// How a fullscreen window leaves fullscreen, from its shell presentation,
/// whether a scrolling layout manages it, its remembered restore geometry,
/// its current (bounded) geometry, and whether its layout maximizes it.
pub open spec fn spec_fullscreen_exit(
    presentation: Option<ShellWindowPresentation>,
    scrolling_layout: bool,
    restore_geometry: Option<Rect>,
    current: Rect,
    layout_maximized: bool,
) -> FullscreenExit {
    let exit = match presentation {
        Some(shell) => shell.spec_exit_fullscreen(),
        None => None,
    };
    match exit {
        Some(ShellFullscreenExit::Normal { geometry }) => FullscreenExit::Normal { target: bounded(geometry) },
        Some(ShellFullscreenExit::Maximized { normal_geometry, geometry, layout_owned }) => if layout_owned && scrolling_layout {
            FullscreenExit::LayoutMaximized { target: bounded(geometry) }
        } else {
            FullscreenExit::ShellMaximized {
                normal_geometry,
                known_target: if layout_owned { None } else { Some(bounded(geometry)) },
                previous: presentation,
            }
        },
        None => match presentation {
            Some(ShellWindowPresentation::Maximized { normal_geometry }) => FullscreenExit::ShellMaximized {
                normal_geometry,
                known_target: None,
                previous: presentation,
            },
            _ => FullscreenExit::Unmanaged {
                target: bounded(
                    match restore_geometry {
                        Some(geometry) => geometry,
                        None => current,
                    },
                ),
                layout_maximized,
            },
        },
    }
}

/// Decides how a fullscreen window leaves fullscreen. The restore geometry
/// is used up exactly when the result is `Unmanaged`.
pub fn plan_fullscreen_exit(
    presentation: Option<ShellWindowPresentation>,
    scrolling_layout: bool,
    restore_geometry: Option<Rect>,
    current: Rect,
    layout_maximized: bool,
) -> (exit: FullscreenExit)
    ensures
        exit == spec_fullscreen_exit(presentation, scrolling_layout, restore_geometry, current, layout_maximized),
{
    let exit = match presentation {
        Some(shell) => shell.exit_fullscreen(),
        None => None,
    };
    match exit {
        Some(ShellFullscreenExit::Normal { geometry }) => FullscreenExit::Normal { target: bound_geometry_size(geometry) },
        Some(ShellFullscreenExit::Maximized { normal_geometry, geometry, layout_owned }) => if layout_owned
            && scrolling_layout {
            FullscreenExit::LayoutMaximized { target: bound_geometry_size(geometry) }
        } else {
            FullscreenExit::ShellMaximized {
                normal_geometry,
                known_target: if layout_owned { None } else { Some(bound_geometry_size(geometry)) },
                previous: presentation,
            }
        },
        None => match presentation {
            Some(ShellWindowPresentation::Maximized { normal_geometry }) => FullscreenExit::ShellMaximized {
                normal_geometry,
                known_target: None,
                previous: presentation,
            },
            _ => FullscreenExit::Unmanaged {
                target: bound_geometry_size(
                    match restore_geometry {
                        Some(geometry) => geometry,
                        None => current,
                    },
                ),
                layout_maximized,
            },
        },
    }
}

impl FullscreenExit {
    /// The action that mirrors the new state.
    pub fn action(&self) -> (action: WindowAction)
        ensures
            action == (match *self {
                FullscreenExit::Normal { .. } => WindowAction::Restore,
                FullscreenExit::Unmanaged { layout_maximized, .. } => if layout_maximized {
                    WindowAction::Maximize
                } else {
                    WindowAction::Restore
                },
                _ => WindowAction::Maximize,
            }),
    {
        match *self {
            FullscreenExit::Normal { .. } => WindowAction::Restore,
            FullscreenExit::Unmanaged { layout_maximized, .. } => if layout_maximized {
                WindowAction::Maximize
            } else {
                WindowAction::Restore
            },
            _ => WindowAction::Maximize,
        }
    }
}

/// Entering shell fullscreen: the presentation to record, and whether the
/// remembered restore geometry is used up. A shell presentation already in
/// place is carried as the underlay; else a client maximize becomes one,
/// normal at the remembered or current geometry; a layout maximize is kept
/// with its layout restore geometry.
pub open spec fn spec_fullscreen_entry(
    presentation: Option<ShellWindowPresentation>,
    client_maximized: bool,
    restore_geometry: Option<Rect>,
    current: Rect,
    layout_maximized: bool,
    layout_restore_geometry: Option<Rect>,
) -> (ShellWindowPresentation, bool) {
    let (previous, used) = match presentation {
        Some(shell) => (Some(shell), false),
        None => if client_maximized {
            (
                Some(ShellWindowPresentation::Maximized {
                    normal_geometry: match restore_geometry {
                        Some(geometry) => geometry,
                        None => current,
                    },
                }),
                true,
            )
        } else {
            (None, false)
        },
    };
    let layout_normal_geometry = if layout_maximized {
        Some(
            match layout_restore_geometry {
                Some(geometry) => geometry,
                None => current,
            },
        )
    } else {
        None
    };
    (spec_fullscreen(current, previous, layout_normal_geometry), used)
}

pub fn plan_fullscreen_entry(
    presentation: Option<ShellWindowPresentation>,
    client_maximized: bool,
    restore_geometry: Option<Rect>,
    current: Rect,
    layout_maximized: bool,
    layout_restore_geometry: Option<Rect>,
) -> (entry: (ShellWindowPresentation, bool))
    ensures
        entry == spec_fullscreen_entry(
            presentation,
            client_maximized,
            restore_geometry,
            current,
            layout_maximized,
            layout_restore_geometry,
        ),
{
    let (previous, used) = match presentation {
        Some(shell) => (Some(shell), false),
        None => if client_maximized {
            (
                Some(ShellWindowPresentation::Maximized {
                    normal_geometry: match restore_geometry {
                        Some(geometry) => geometry,
                        None => current,
                    },
                }),
                true,
            )
        } else {
            (None, false)
        },
    };
    let layout_normal_geometry = if layout_maximized {
        Some(
            match layout_restore_geometry {
                Some(geometry) => geometry,
                None => current,
            },
        )
    } else {
        None
    };
    (ShellWindowPresentation::fullscreen(current, previous, layout_normal_geometry), used)
}

/// Entering fullscreen from a shell maximize and leaving it again returns the
/// window to the same shell maximize: the same normal geometry, at the
/// geometry it had when it entered.
pub proof fn law_fullscreen_round_trip_keeps_shell_maximize(
    normal_geometry: Rect,
    current: Rect,
    scrolling_layout: bool,
    restore_geometry: Option<Rect>,
    layout_maximized: bool,
    layout_restore_geometry: Option<Rect>,
)
    ensures
        ({
            let maximized = Some(ShellWindowPresentation::Maximized { normal_geometry });
            let (entered, _) = spec_fullscreen_entry(maximized, false, restore_geometry, current, layout_maximized, layout_restore_geometry);
            spec_fullscreen_exit(Some(entered), scrolling_layout, restore_geometry, current, layout_maximized)
                == FullscreenExit::ShellMaximized {
                    normal_geometry,
                    known_target: Some(bounded(current)),
                    previous: Some(entered),
                }
        }),
{
}

/// The authority over a window's geometry after a shell toggle: the shell
/// for maximize and fullscreen, the client again after a restore.
pub fn geometry_authority(action: WindowAction) -> (authority: GeometryAuthority)
    ensures
        authority == (if action == WindowAction::Maximize || action == WindowAction::Fullscreen {
            GeometryAuthority::Shell
        } else {
            GeometryAuthority::Pending
        }),
{
    match action {
        WindowAction::Maximize | WindowAction::Fullscreen => GeometryAuthority::Shell,
        _ => GeometryAuthority::Pending,
    }
}

/// What toggling vertical maximize does to a client window.
#[derive(Clone, Copy, Debug, PartialEq, Eq, Structural)]
pub enum VerticalMaximize {
    /// Back to the remembered vertical extent; the client may size itself.
    Restore { target: Rect },
    /// Span the work area's content height, keeping the horizontal extent
    /// and remembering the vertical one.
    Span { target: Rect, remembered: VerticalExtent },
}

/// The vertical maximize toggle of a window at `current`: back to the
/// remembered vertical extent when there is one, else across the content of
/// its output's work area when that is known. `None` when neither is.
pub open spec fn spec_vertical_maximize(current: Rect, remembered: Option<VerticalExtent>, work_area_content: Option<Rect>) -> Option<VerticalMaximize> {
    match remembered {
        Some(extent) => Some(VerticalMaximize::Restore { target: Rect { y: extent.y, height: extent.height, ..current } }),
        None => match work_area_content {
            Some(content) => Some(VerticalMaximize::Span {
                target: Rect { y: content.y, height: content.height, ..current },
                remembered: VerticalExtent { y: current.y, height: current.height },
            }),
            None => None,
        },
    }
}

pub fn plan_vertical_maximize(current: Rect, remembered: Option<VerticalExtent>, work_area_content: Option<Rect>) -> (toggle: Option<VerticalMaximize>)
    ensures
        toggle == spec_vertical_maximize(current, remembered, work_area_content),
{
    match remembered {
        Some(extent) => Some(VerticalMaximize::Restore { target: Rect { y: extent.y, height: extent.height, ..current } }),
        None => match work_area_content {
            Some(content) => Some(VerticalMaximize::Span {
                target: Rect { y: content.y, height: content.height, ..current },
                remembered: VerticalExtent { y: current.y, height: current.height },
            }),
            None => None,
        },
    }
}

impl VerticalMaximize {
    /// The shell holds the geometry of a spanned window only.
    pub fn authority(&self) -> (authority: GeometryAuthority)
        ensures
            authority == (if *self is Span { GeometryAuthority::Shell } else { GeometryAuthority::Pending }),
    {
        match self {
            VerticalMaximize::Span { .. } => GeometryAuthority::Shell,
            VerticalMaximize::Restore { .. } => GeometryAuthority::Pending,
        }
    }
}

/// Toggling vertical maximize twice returns a window to its geometry.
pub proof fn law_vertical_maximize_round_trip(current: Rect, content: Rect)
    ensures
        spec_vertical_maximize(current, None, Some(content)) matches Some(VerticalMaximize::Span { target, remembered })
            && spec_vertical_maximize(target, Some(remembered), Some(content))
            == Some(VerticalMaximize::Restore { target: current }),
{
}

/// What happens to a geometry the shell sends for a client window.
#[derive(Clone, Copy, Debug, PartialEq, Eq, Structural)]
pub enum ConfigureDecision {
    /// The client is resizing itself interactively; a non-exact request waits.
    IgnoredDuringResize,
    /// Override-redirect windows place themselves.
    IgnoredUnmanaged,
    /// A layout or the shell owns the geometry and the request would move it.
    Rejected,
    /// Configure the window to `target`. When `preserve_client_fullscreen`,
    /// the request only echoes the fullscreen the client already has, and
    /// its client constraints and restore geometry stay.
    Apply { target: Rect, preserve_client_fullscreen: bool },
}

/// The size a configure grants: the request when the compositor owns the
/// geometry, else the request within the client's size hints.
pub open spec fn spec_configured_size(requested: Size, minimum: Size, maximum: Size, compositor_owned: bool) -> Size {
    if compositor_owned {
        requested
    } else {
        Size {
            width: spec_constrain_dimension(requested.width, minimum.width, maximum.width),
            height: spec_constrain_dimension(requested.height, minimum.height, maximum.height),
        }
    }
}

/// The shell's configure of a client window, step by step: a non-exact
/// request waits while the client resizes itself, override-redirect windows
/// are left alone, the size follows the client's hints unless the compositor
/// owns the geometry, an owned geometry refuses a non-exact move, and a
/// request that only repeats the client's own fullscreen keeps its state.
pub open spec fn spec_configure_command(
    requested: Rect,
    exact: bool,
    client_resizing: bool,
    override_redirect: bool,
    geometry_owned: bool,
    minimum: Size,
    maximum: Size,
    current_target: Rect,
    client_fullscreen: bool,
) -> ConfigureDecision {
    if !exact && client_resizing {
        ConfigureDecision::IgnoredDuringResize
    } else if override_redirect {
        ConfigureDecision::IgnoredUnmanaged
    } else {
        let size = spec_configured_size(
            Size { width: requested.width, height: requested.height },
            minimum,
            maximum,
            exact || geometry_owned,
        );
        let target = Rect { x: requested.x, y: requested.y, width: size.width, height: size.height };
        if !exact && geometry_owned && current_target != target {
            ConfigureDecision::Rejected
        } else {
            ConfigureDecision::Apply {
                target,
                preserve_client_fullscreen: !exact && client_fullscreen && current_target == target,
            }
        }
    }
}

/// Decides a geometry the shell sends for a client window, given whether it
/// is exact, what the client is doing, who owns its geometry, its size
/// hints and its current target.
pub fn plan_configure_command(
    requested: Rect,
    exact: bool,
    client_resizing: bool,
    override_redirect: bool,
    geometry_owned: bool,
    minimum: Size,
    maximum: Size,
    current_target: Rect,
    client_fullscreen: bool,
) -> (decision: ConfigureDecision)
    ensures
        decision == spec_configure_command(
            requested,
            exact,
            client_resizing,
            override_redirect,
            geometry_owned,
            minimum,
            maximum,
            current_target,
            client_fullscreen,
        ),
{
    if !exact && client_resizing {
        return ConfigureDecision::IgnoredDuringResize;
    }
    if override_redirect {
        return ConfigureDecision::IgnoredUnmanaged;
    }
    let size = configured_window_size(requested.size(), minimum, maximum, exact || geometry_owned);
    let target = Rect { x: requested.x, y: requested.y, width: size.width, height: size.height };
    if !exact && authoritative_geometry_rejects_configure(geometry_owned, current_target, target) {
        return ConfigureDecision::Rejected;
    }
    ConfigureDecision::Apply {
        target,
        preserve_client_fullscreen: !exact && preserves_client_fullscreen_geometry(client_fullscreen, current_target, target),
    }
}

/// A connected output and the logical rectangle it covers.
#[derive(Clone, Copy, Debug, PartialEq, Eq, Structural)]
pub struct PlacedOutput {
    pub id: OutputId,
    pub geometry: Rect,
}

/// A window moving from the output at `source` to a different output at
/// `destination`.
#[derive(Clone, Copy, Debug, PartialEq, Eq, Structural)]
pub struct OutputTransfer {
    pub source: Rect,
    pub destination: Rect,
}

/// The output change of a configure, when the outputs under the current and
/// the new geometry are both known and differ.
pub open spec fn spec_output_transfer(source: Option<PlacedOutput>, destination: Option<PlacedOutput>) -> Option<OutputTransfer> {
    match (source, destination) {
        (Some(source), Some(destination)) => if source.id != destination.id {
            Some(OutputTransfer { source: source.geometry, destination: destination.geometry })
        } else {
            None
        },
        _ => None,
    }
}

pub fn output_transfer(source: Option<PlacedOutput>, destination: Option<PlacedOutput>) -> (transfer: Option<OutputTransfer>)
    ensures
        transfer == spec_output_transfer(source, destination),
{
    match (source, destination) {
        (Some(source), Some(destination)) => if !source.id.same(&destination.id) {
            Some(OutputTransfer { source: source.geometry, destination: destination.geometry })
        } else {
            None
        },
        _ => None,
    }
}

/// What a configure the shell applied leaves for the caller to do.
#[derive(Clone, Copy, Debug, PartialEq, Eq, Structural)]
pub struct ConfiguredWindow {
    /// The geometry to configure the window to.
    pub target: Rect,
    /// The client's own maximize and fullscreen constraints are dropped.
    pub clear_client_constraints: bool,
    /// The shell presentation moved with the window; its placement is remembered.
    pub remember_placement: bool,
}

/// Whether `after` is the shell presentation `before` carried across
/// `transfer`: each geometry it retains keeps its offset from the output
/// origin, and is then fitted by `fit` into the destination output.
pub open spec fn carried_across<F: Fn(Rect) -> Rect>(
    before: ShellWindowPresentation,
    after: ShellWindowPresentation,
    transfer: OutputTransfer,
    fit: F,
) -> bool {
    spec_geometries_related(
        before,
        after,
        |b: Rect, a: Rect| fit.ensures((spec_translated_restore_geometry(b, transfer.source, transfer.destination),), a),
    )
}

/// The view with a surface's window restore geometry forgotten.
pub open spec fn without_restore_geometry(v: FrontendView, surface: u64) -> FrontendView {
    match v.spec_window_record_for_surface(surface) {
        Some(record) => v.with_record(v.surface_ids[surface], WindowRecord { restore_geometry: None, ..record }),
        None => v,
    }
}

/// The view once a configure is committed: the restore geometry is
/// forgotten unless the configure only repeats the client's own fullscreen.
pub open spec fn configured_view(v: FrontendView, surface: u64, preserve_client_fullscreen: bool) -> FrontendView {
    if preserve_client_fullscreen {
        v
    } else {
        without_restore_geometry(v, surface)
    }
}

/// A client's own maximize and fullscreen state.
#[derive(Clone, Copy, Debug, PartialEq, Eq, Structural, Default)]
pub struct ClientState {
    pub maximized: bool,
    pub fullscreen: bool,
}

/// What a client asks for.
#[derive(Clone, Copy, Debug, PartialEq, Eq, Structural)]
pub enum ClientStateRequestKind {
    Maximize,
    Unmaximize,
    Fullscreen,
    Unfullscreen,
}

/// A client state request measured against the client's state before it.
#[derive(Clone, Copy, Debug, PartialEq, Eq, Structural)]
pub struct ClientStateTransition {
    /// The request enters maximize or fullscreen.
    pub entering: bool,
    /// The window was maximized or fullscreen before.
    pub was_constrained: bool,
    /// The window is neither maximized nor fullscreen afterwards.
    pub unconstrained_after: bool,
}

pub fn client_state_transition(request: ClientStateRequestKind, before: ClientState) -> (transition: ClientStateTransition)
    ensures
        transition == (ClientStateTransition {
            entering: request == ClientStateRequestKind::Maximize || request == ClientStateRequestKind::Fullscreen,
            was_constrained: before.fullscreen || before.maximized,
            unconstrained_after: match request {
                ClientStateRequestKind::Unmaximize => !before.fullscreen,
                ClientStateRequestKind::Unfullscreen => !before.maximized,
                _ => false,
            },
        }),
{
    let entering = match request {
        ClientStateRequestKind::Maximize | ClientStateRequestKind::Fullscreen => true,
        _ => false,
    };
    let unconstrained_after = match request {
        ClientStateRequestKind::Unmaximize => !before.fullscreen,
        ClientStateRequestKind::Unfullscreen => !before.maximized,
        _ => false,
    };
    ClientStateTransition { entering, was_constrained: before.fullscreen || before.maximized, unconstrained_after }
}

/// Where a client request goes before the window itself is touched.
#[derive(Clone, Copy, Debug, PartialEq, Eq, Structural)]
pub enum ClientRequestRoute {
    /// The shell holds an exact geometry: reassert it.
    Exact,
    /// A fixed managed layout refuses client maximize: rearrange it.
    RefusedByLayout,
    /// Shell fullscreen owns the geometry: refuse the request and reassert
    /// the retained target. In a scrolling layout the layout's maximized
    /// slot has already followed `layout_maximized` when it is `Some`.
    ReassertShellFullscreen { layout_maximized: Option<bool> },
    /// Go on; in a scrolling layout the layout's maximized slot follows
    /// `layout_maximized` when it is `Some`.
    Apply { layout_maximized: Option<bool> },
}

/// The maximized slot a scrolling layout takes for a client request, if the
/// request is a maximize or unmaximize of a window in one.
pub open spec fn spec_scrolling_layout_maximized(request: ClientStateRequestKind, scrolling_layout: bool) -> Option<bool> {
    if (request == ClientStateRequestKind::Maximize || request == ClientStateRequestKind::Unmaximize) && scrolling_layout {
        Some(request == ClientStateRequestKind::Maximize)
    } else {
        None
    }
}

pub open spec fn spec_client_request_route(
    request: ClientStateRequestKind,
    exact_geometry: bool,
    scrolling_layout: bool,
    layout_managed: bool,
    shell_fullscreen_locked: bool,
) -> ClientRequestRoute {
    let layout_maximized = spec_scrolling_layout_maximized(request, scrolling_layout);
    if exact_geometry {
        ClientRequestRoute::Exact
    } else if layout_maximized is None && request == ClientStateRequestKind::Maximize && layout_managed {
        ClientRequestRoute::RefusedByLayout
    } else if shell_fullscreen_locked {
        ClientRequestRoute::ReassertShellFullscreen { layout_maximized }
    } else {
        ClientRequestRoute::Apply { layout_maximized }
    }
}

/// Routes a client maximize or fullscreen request: an exact shell geometry
/// wins, then a scrolling layout takes maximize into its own slot, a fixed
/// layout refuses client maximize, and a locked shell fullscreen refuses
/// whatever is left.
pub fn route_client_state_request(
    request: ClientStateRequestKind,
    exact_geometry: bool,
    scrolling_layout: bool,
    layout_managed: bool,
    shell_fullscreen_locked: bool,
) -> (route: ClientRequestRoute)
    ensures
        route == spec_client_request_route(
            request,
            exact_geometry,
            scrolling_layout,
            layout_managed,
            shell_fullscreen_locked,
        ),
{
    if exact_geometry {
        return ClientRequestRoute::Exact;
    }
    let maximize = match request {
        ClientStateRequestKind::Maximize => true,
        _ => false,
    };
    let unmaximize = match request {
        ClientStateRequestKind::Unmaximize => true,
        _ => false,
    };
    let layout_maximized = if (maximize || unmaximize) && scrolling_layout {
        Some(maximize)
    } else {
        None
    };
    if layout_maximized.is_none() && maximize && layout_managed {
        ClientRequestRoute::RefusedByLayout
    } else if shell_fullscreen_locked {
        ClientRequestRoute::ReassertShellFullscreen { layout_maximized }
    } else {
        ClientRequestRoute::Apply { layout_maximized }
    }
}

/// Whether entering maximize or fullscreen records the window's current
/// geometry to restore later: only from the unconstrained state, for a
/// window that keeps client restore geometry, with a positive size, and when
/// none is recorded yet.
pub fn stores_client_restore(
    transition: ClientStateTransition,
    can_store: bool,
    current: Rect,
    restore_recorded: bool,
) -> (stores: bool)
    ensures
        stores == (transition.entering && !transition.was_constrained && can_store && current.width > 0
            && current.height > 0 && !restore_recorded),
{
    transition.entering && !transition.was_constrained && can_store && current.width > 0 && current.height > 0
        && !restore_recorded
}

/// Where a window goes when a client request leaves it unconstrained.
#[derive(Clone, Copy, Debug, PartialEq, Eq, Structural)]
pub enum UnconstrainedPlacement {
    /// Its managed layout places it.
    ArrangeLayout,
    /// Back to the recorded restore geometry.
    Restore { geometry: Rect },
    /// The client sizes itself and is placed once it has.
    ClientSized,
}

pub fn unconstrained_placement(layout_managed: bool, restore: Option<Rect>) -> (placement: UnconstrainedPlacement)
    ensures
        placement == (if layout_managed {
            UnconstrainedPlacement::ArrangeLayout
        } else {
            match restore {
                Some(geometry) => UnconstrainedPlacement::Restore { geometry },
                None => UnconstrainedPlacement::ClientSized,
            }
        }),
{
    if layout_managed {
        UnconstrainedPlacement::ArrangeLayout
    } else {
        match restore {
            Some(geometry) => UnconstrainedPlacement::Restore { geometry },
            None => UnconstrainedPlacement::ClientSized,
        }
    }
}

/// The action that mirrors a managed window's presentation.
pub fn presented_action(fullscreen: bool, maximized: bool) -> (action: WindowAction)
    ensures
        action == (if fullscreen {
            WindowAction::Fullscreen
        } else if maximized {
            WindowAction::Maximize
        } else {
            WindowAction::Restore
        }),
{
    if fullscreen {
        WindowAction::Fullscreen
    } else if maximized {
        WindowAction::Maximize
    } else {
        WindowAction::Restore
    }
}

/// The window a minimize or close of a toplevel acts on.
#[derive(Clone, Copy, Debug, PartialEq, Eq, Structural)]
pub enum ToplevelRoute {
    /// A window the shell draws itself; `focused` when it holds the local focus.
    Local { id: u64, focused: bool },
    /// A client window.
    Client { id: u64 },
    /// No window to act on.
    Missing,
}

/// Routes a minimize or close of the window `id`: a local window of the
/// shell goes to the local windows, noting whether it has the local focus;
/// any other id goes to the client window with that id, if there is one.
pub fn route_toplevel_by_id(id: u64, local: bool, focused_local: Option<u64>, client_exists: bool) -> (route: ToplevelRoute)
    ensures
        route == (if local {
            ToplevelRoute::Local { id, focused: focused_local == Some(id) }
        } else if client_exists {
            ToplevelRoute::Client { id }
        } else {
            ToplevelRoute::Missing
        }),
{
    if local {
        let focused = match focused_local {
            Some(focused) => focused == id,
            None => false,
        };
        ToplevelRoute::Local { id, focused }
    } else if client_exists {
        ToplevelRoute::Client { id }
    } else {
        ToplevelRoute::Missing
    }
}

/// Routes a minimize or close of the focused toplevel: the focused local
/// window first, else the focused client window.
pub fn route_focused_toplevel(focused_local: Option<u64>, focused_client: Option<u64>) -> (route: ToplevelRoute)
    ensures
        route == (match focused_local {
            Some(id) => ToplevelRoute::Local { id, focused: true },
            None => match focused_client {
                Some(id) => ToplevelRoute::Client { id },
                None => ToplevelRoute::Missing,
            },
        }),
{
    match focused_local {
        Some(id) => ToplevelRoute::Local { id, focused: true },
        None => match focused_client {
            Some(id) => ToplevelRoute::Client { id },
            None => ToplevelRoute::Missing,
        },
    }
}

/// Whether a client may start an interactive move or resize: not for
/// override-redirect windows, not while the client is maximized or
/// fullscreen, not in a managed layout, and not while the shell holds the
/// geometry (shell fullscreen or an exact geometry).
pub fn managed_client_grab_allowed(
    override_redirect: bool,
    client: ClientState,
    layout_managed: bool,
    shell_fullscreen_locked: bool,
    exact_geometry: bool,
) -> (allowed: bool)
    ensures
        allowed == !(override_redirect || client.fullscreen || client.maximized || layout_managed
            || shell_fullscreen_locked || exact_geometry),
{
    if override_redirect || client.fullscreen || client.maximized || layout_managed {
        return false;
    }
    if shell_fullscreen_locked || exact_geometry {
        return false;
    }
    true
}


/// The shell presentation a surface's window records, if any.
pub open spec fn recorded_presentation(v: FrontendView, surface: u64) -> Option<ShellWindowPresentation> {
    match v.spec_window_record_for_surface(surface) {
        Some(record) => record.shell_presentation,
        None => None,
    }
}

/// The restore geometry a surface's window records, if any.
pub open spec fn recorded_restore_geometry(v: FrontendView, surface: u64) -> Option<Rect> {
    match v.spec_window_record_for_surface(surface) {
        Some(record) => record.restore_geometry,
        None => None,
    }
}

/// A surface's window record with its shell presentation taken, and its
/// restore geometry too when `restore_used`.
pub open spec fn taken_for_toggle(v: FrontendView, surface: u64, restore_used: bool) -> FrontendView {
    match v.spec_window_record_for_surface(surface) {
        Some(record) => v.with_record(
            v.surface_ids[surface],
            WindowRecord {
                shell_presentation: None,
                restore_geometry: if restore_used { None } else { record.restore_geometry },
                ..record
            },
        ),
        None => v,
    }
}

/// A surface's window with its shell presentation set, when the surface
/// has a window.
pub open spec fn with_presentation(v: FrontendView, surface: u64, presentation: ShellWindowPresentation) -> FrontendView {
    match v.spec_window_id_for_surface(surface) {
        Some(id) => v.with_record(id, WindowRecord { shell_presentation: Some(presentation), ..v.record(id) }),
        None => v,
    }
}

/// What a configure the shell applies keeps of its request and of the
/// client's state: the window goes to the requested position, and it keeps
/// its client fullscreen only when the request is not exact and only echoes
/// the rectangle the window already has; any other rectangle is a
/// shell-authored move or resize that ends the client's constraint. A
/// non-exact request that would move a geometry someone else owns is
/// rejected, and a non-exact one is ignored while the client resizes itself.
pub proof fn law_configure_keeps_client_fullscreen_only_on_an_echo(
    requested: Rect,
    exact: bool,
    client_resizing: bool,
    override_redirect: bool,
    geometry_owned: bool,
    minimum: Size,
    maximum: Size,
    current_target: Rect,
    client_fullscreen: bool,
)
    ensures
        ({
            let decision = spec_configure_command(
                requested,
                exact,
                client_resizing,
                override_redirect,
                geometry_owned,
                minimum,
                maximum,
                current_target,
                client_fullscreen,
            );
            &&& decision matches ConfigureDecision::Apply { target, preserve_client_fullscreen } ==> {
                &&& target.x == requested.x
                &&& target.y == requested.y
                &&& preserve_client_fullscreen == (!exact && client_fullscreen && target == current_target)
                &&& (!exact && geometry_owned) ==> target == current_target
            }
            &&& (!exact && client_resizing) ==> decision == ConfigureDecision::IgnoredDuringResize
            &&& (exact && !override_redirect) ==> decision == ConfigureDecision::Apply {
                target: requested,
                preserve_client_fullscreen: false,
            }
        }),
{
}

/// Entering fullscreen always returns to the window's current geometry, and
/// the underlay is the state fullscreen covers: a shell presentation
/// already there, else a client maximize normal at the remembered (or
/// current) geometry, else a layout maximize normal at the layout's own
/// restore geometry (or the current one when it has none), else the normal
/// state. Only a client maximize uses up the remembered restore geometry.
pub proof fn law_fullscreen_entry_keeps_what_it_covers(
    presentation: Option<ShellWindowPresentation>,
    client_maximized: bool,
    restore_geometry: Option<Rect>,
    current: Rect,
    layout_maximized: bool,
    layout_restore_geometry: Option<Rect>,
)
    ensures
        ({
            let (entered, used) = spec_fullscreen_entry(
                presentation,
                client_maximized,
                restore_geometry,
                current,
                layout_maximized,
                layout_restore_geometry,
            );
            let remembered = match restore_geometry {
                Some(geometry) => geometry,
                None => current,
            };
            let layout_normal = match layout_restore_geometry {
                Some(geometry) => geometry,
                None => current,
            };
            &&& entered matches ShellWindowPresentation::Fullscreen { return_geometry, underlay } && {
                &&& return_geometry == current
                &&& underlay == match presentation {
                    Some(ShellWindowPresentation::Maximized { normal_geometry }) => ShellFullscreenUnderlay::Maximized {
                        normal_geometry,
                    },
                    Some(ShellWindowPresentation::Fullscreen { .. }) => if layout_maximized {
                        ShellFullscreenUnderlay::LayoutMaximized { normal_geometry: layout_normal }
                    } else {
                        ShellFullscreenUnderlay::Normal
                    },
                    None => if client_maximized {
                        ShellFullscreenUnderlay::Maximized { normal_geometry: remembered }
                    } else if layout_maximized {
                        ShellFullscreenUnderlay::LayoutMaximized { normal_geometry: layout_normal }
                    } else {
                        ShellFullscreenUnderlay::Normal
                    },
                }
            }
            &&& used == (presentation is None && client_maximized)
        }),
{
}

/// Whether a surface's window has a record with no shell presentation and
/// no restore geometry: a window neither the shell nor a client request has
/// maximized or made fullscreen.
pub open spec fn plain_window(v: FrontendView, surface: u64) -> bool {
    v.spec_window_record_for_surface(surface) matches Some(record) && record.shell_presentation is None
        && record.restore_geometry is None
}

/// Toggling maximize twice on a plain window of positive size, not
/// geometry-locked and neither maximized nor fullscreen by its client, as
/// `begin_maximize_toggle` and `finish_maximize_toggle` do it: the first
/// toggle maximizes it at the output's maximized geometry, remembering its
/// geometry; the second restores it to exactly that geometry and leaves the
/// window records as they were before the first.
pub proof fn law_maximize_toggle_twice_restores_window(v: FrontendView, surface: u64, current: Rect, maximized: Rect)
    requires
        plain_window(v, surface),
        current.width >= 1,
        current.height >= 1,
    ensures
        ({
            let (first, first_used) = spec_maximize_toggle(
                recorded_presentation(v, surface),
                false,
                false,
                recorded_restore_geometry(v, surface),
                current,
            );
            let maximized_view = with_presentation(
                taken_for_toggle(v, surface, first_used),
                surface,
                ShellWindowPresentation::Maximized { normal_geometry: current },
            );
            let (second, second_used) = spec_maximize_toggle(
                recorded_presentation(maximized_view, surface),
                false,
                false,
                recorded_restore_geometry(maximized_view, surface),
                maximized,
            );
            &&& first == MaximizeToggle::Maximize { normal_geometry: current, known_target: None, previous: None }
            &&& second == MaximizeToggle::Restore { target: current }
            &&& taken_for_toggle(maximized_view, surface, second_used) == v
        }),
{
    let id = v.surface_ids[surface];
    let record = v.windows[id];
    let (first, first_used) = spec_maximize_toggle(None, false, false, None, current);
    let taken = taken_for_toggle(v, surface, first_used);
    assert(taken.windows =~= v.windows);
    assert(taken == v);
    let maximized_view = with_presentation(v, surface, ShellWindowPresentation::Maximized { normal_geometry: current });
    let (second, second_used) = spec_maximize_toggle(
        recorded_presentation(maximized_view, surface),
        false,
        false,
        recorded_restore_geometry(maximized_view, surface),
        maximized,
    );
    assert(taken_for_toggle(maximized_view, surface, second_used).windows =~= v.windows);
}

/// Toggling fullscreen twice on a plain window of positive size outside any
/// managed layout, not maximized by its client, as `enter_fullscreen`,
/// `begin_fullscreen_exit` and `finish_fullscreen_exit` do it: the window
/// becomes fullscreen over its normal state, then leaves fullscreen back to
/// exactly its geometry with a restore action, and the window records are as
/// they were before.
pub proof fn law_fullscreen_toggle_twice_restores_window(
    v: FrontendView,
    surface: u64,
    current: Rect,
    fullscreen_current: Rect,
    layout_restore_geometry: Option<Rect>,
)
    requires
        plain_window(v, surface),
        current.width >= 1,
        current.height >= 1,
    ensures
        ({
            let (entered, used) = spec_fullscreen_entry(
                recorded_presentation(v, surface),
                false,
                recorded_restore_geometry(v, surface),
                current,
                false,
                layout_restore_geometry,
            );
            let fullscreen_view = with_presentation(taken_for_toggle(v, surface, used), surface, entered);
            let exit = spec_fullscreen_exit(
                recorded_presentation(fullscreen_view, surface),
                false,
                recorded_restore_geometry(fullscreen_view, surface),
                fullscreen_current,
                false,
            );
            &&& entered == (ShellWindowPresentation::Fullscreen {
                return_geometry: current,
                underlay: ShellFullscreenUnderlay::Normal,
            })
            &&& exit == FullscreenExit::Normal { target: current }
            &&& taken_for_toggle(fullscreen_view, surface, exit is Unmanaged) == v
        }),
{
    let (entered, used) = spec_fullscreen_entry(None, false, None, current, false, layout_restore_geometry);
    let taken = taken_for_toggle(v, surface, used);
    assert(taken.windows =~= v.windows);
    assert(taken == v);
    let fullscreen_view = with_presentation(v, surface, entered);
    let exit = spec_fullscreen_exit(
        recorded_presentation(fullscreen_view, surface),
        false,
        recorded_restore_geometry(fullscreen_view, surface),
        fullscreen_current,
        false,
    );
    assert(taken_for_toggle(fullscreen_view, surface, exit is Unmanaged).windows =~= v.windows);
}

impl WaylandFrontend {
    fn recorded_restore(&self, surface: u64) -> (restore: Option<Rect>)
        requires
            self.wf(),
        ensures
            restore == recorded_restore_geometry(self@, surface),
    {
        match self.window_record_for_surface(surface) {
            Some(record) => record.restore_geometry,
            None => None,
        }
    }

    /// Starts the maximize toggle of a window the shell places itself. A
    /// window whose geometry is locked and that is not fullscreen keeps its
    /// state (`None`). Otherwise takes its shell presentation, and its
    /// restore geometry when the toggle uses it up, and returns the toggle.
    pub fn begin_maximize_toggle(
        &mut self,
        surface: u64,
        client: ClientState,
        current: Rect,
        fullscreen: bool,
        geometry_locked: bool,
    ) -> (toggle: Option<MaximizeToggle>)
        requires
            old(self).wf(),
        ensures
            final(self).wf(),
            if !fullscreen && geometry_locked {
                toggle is None && final(self)@ == old(self)@
            } else {
                let (plan, used) = spec_maximize_toggle(
                    recorded_presentation(old(self)@, surface),
                    client.fullscreen,
                    client.maximized,
                    recorded_restore_geometry(old(self)@, surface),
                    current,
                );
                &&& toggle == Some(plan)
                &&& final(self)@ == taken_for_toggle(old(self)@, surface, used)
            },
    {
        if !fullscreen && geometry_locked {
            return None;
        }
        let restore = self.recorded_restore(surface);
        let presentation = self.take_shell_presentation(surface);
        let ghost taken = self@;
        let (toggle, used) = plan_maximize_toggle(presentation, client.fullscreen, client.maximized, restore, current);
        if used {
            self.take_restore_geometry(surface);
        }
        proof {
            if old(self)@.spec_window_record_for_surface(surface) is Some {
                let id = old(self)@.surface_ids[surface];
                assert(self@.windows =~= taken_for_toggle(old(self)@, surface, used).windows);
            }
        }
        Some(toggle)
    }

    /// Finishes a maximize toggle, with the maximized geometry of the
    /// window's output when the toggle does not know its target. Returns
    /// the window's new geometry and action; `None` when no maximized
    /// geometry could be found, with the previous presentation put back.
    pub fn finish_maximize_toggle(
        &mut self,
        surface: u64,
        toggle: MaximizeToggle,
        maximized_geometry: Option<Rect>,
    ) -> (placed: Option<(Rect, WindowAction)>)
        requires
            old(self).wf(),
        ensures
            final(self).wf(),
            match toggle {
                MaximizeToggle::Restore { target } => placed == Some((target, WindowAction::Restore))
                    && final(self)@ == old(self)@,
                MaximizeToggle::Maximize { normal_geometry, known_target, previous } => {
                    let target = match known_target {
                        Some(known) => Some(known),
                        None => maximized_geometry,
                    };
                    match target {
                        Some(target) => {
                            &&& placed == Some((target, WindowAction::Maximize))
                            &&& final(self)@ == with_presentation(
                                old(self)@,
                                surface,
                                ShellWindowPresentation::Maximized { normal_geometry },
                            )
                        },
                        None => {
                            &&& placed is None
                            &&& final(self)@ == match previous {
                                Some(previous) => with_presentation(old(self)@, surface, previous),
                                None => old(self)@,
                            }
                        },
                    }
                },
            },
    {
        match toggle {
            MaximizeToggle::Restore { target } => Some((target, WindowAction::Restore)),
            MaximizeToggle::Maximize { normal_geometry, known_target, previous } => {
                let target = match known_target {
                    Some(known) => Some(known),
                    None => maximized_geometry,
                };
                match target {
                    Some(target) => {
                        self.set_shell_presentation(surface, ShellWindowPresentation::Maximized { normal_geometry });
                        Some((target, WindowAction::Maximize))
                    },
                    None => {
                        if let Some(previous) = previous {
                            self.set_shell_presentation(surface, previous);
                        }
                        None
                    },
                }
            },
        }
    }

    /// Finishes the maximize toggle of a window in a scrolling layout, given
    /// whether the layout took the new maximized slot when it had to change.
    /// A window leaving fullscreen loses its shell presentation and restore
    /// geometry. Returns the action that mirrors the new state, or `None`
    /// when nothing changed.
    pub fn finish_scrolling_maximize(
        &mut self,
        surface: u64,
        plan: ScrollingMaximize,
        layout_updated: bool,
    ) -> (action: Option<WindowAction>)
        requires
            old(self).wf(),
        ensures
            final(self).wf(),
            match plan {
                ScrollingMaximize::Locked => action is None && final(self)@ == old(self)@,
                ScrollingMaximize::Toggle { maximized, change_layout, leave_fullscreen } => {
                    if change_layout && !layout_updated {
                        action is None && final(self)@ == old(self)@
                    } else {
                        &&& action == Some(if maximized { WindowAction::Maximize } else { WindowAction::Restore })
                        &&& final(self)@ == if leave_fullscreen {
                            taken_for_toggle(old(self)@, surface, true)
                        } else {
                            old(self)@
                        }
                    }
                },
            },
    {
        match plan {
            ScrollingMaximize::Locked => None,
            ScrollingMaximize::Toggle { maximized, change_layout, leave_fullscreen } => {
                if change_layout && !layout_updated {
                    return None;
                }
                if leave_fullscreen {
                    self.take_shell_presentation(surface);
                    self.clear_restore_geometry(surface);
                    proof {
                        if old(self)@.spec_window_record_for_surface(surface) is Some {
                            assert(self@.windows =~= taken_for_toggle(old(self)@, surface, true).windows);
                        }
                    }
                }
                Some(if maximized { WindowAction::Maximize } else { WindowAction::Restore })
            },
        }
    }

    /// Carries a surface's window shell presentation across an output
    /// transfer: every geometry it retains keeps its offset from the output
    /// origin and is then fitted by `fit`, the caller's fit into the
    /// destination output's work area. Returns whether there was a
    /// presentation to carry.
    pub fn transfer_shell_presentation<F: Fn(Rect) -> Rect>(
        &mut self,
        surface: u64,
        transfer: OutputTransfer,
        fit: &F,
    ) -> (transferred: bool)
        requires
            old(self).wf(),
            forall|geometry: Rect| #[trigger] fit.requires((geometry,)),
        ensures
            final(self).wf(),
            transferred == (recorded_presentation(old(self)@, surface) is Some),
            match recorded_presentation(old(self)@, surface) {
                Some(before) => {
                    &&& recorded_presentation(final(self)@, surface) matches Some(after)
                    &&& carried_across(before, after, transfer, *fit)
                    &&& final(self)@ == with_presentation(old(self)@, surface, after)
                },
                None => final(self)@ == old(self)@,
            },
    {
        let Some(record) = self.window_record_for_surface(surface) else {
            return false;
        };
        let Some(presentation) = record.shell_presentation else {
            return false;
        };
        let ghost before = presentation;
        let mut moved = presentation;
        let source = transfer.source;
        let destination = transfer.destination;
        let carry = |geometry: Rect| -> (fitted: Rect)
            requires
                fit.requires((spec_translated_restore_geometry(geometry, source, destination),)),
            ensures
                fit.ensures((spec_translated_restore_geometry(geometry, source, destination),), fitted),
        { fit(translated_restore_geometry(geometry, source, destination)) };
        assert forall|geometry: Rect| #[trigger] carry.requires((geometry,)) by {
            assert(fit.requires((spec_translated_restore_geometry(geometry, source, destination),)));
        }
        moved.map_geometries(carry);
        proof {
            assert forall|b: Rect, a: Rect| #[trigger] carry.ensures((b,), a) implies fit.ensures(
                (spec_translated_restore_geometry(b, source, destination),),
                a,
            ) by {}
            lemma_geometries_related_weaken(
                before,
                moved,
                |b: Rect, a: Rect| carry.ensures((b,), a),
                |b: Rect, a: Rect| fit.ensures((spec_translated_restore_geometry(b, transfer.source, transfer.destination),), a),
            );
        }
        self.set_shell_presentation(surface, moved);
        true
    }

    /// Commits a configure the shell decided: carries the shell presentation
    /// to the window's new output when it changes outputs, fitting each of
    /// its geometries into that output with `fit`, and forgets the restore
    /// geometry unless the configure only repeats the client's own
    /// fullscreen. Returns what is left to do, or `None` when the configure
    /// was not applied.
    pub fn commit_configure<F: Fn(Rect) -> Rect>(
        &mut self,
        surface: u64,
        decision: ConfigureDecision,
        source_output: Option<PlacedOutput>,
        destination_output: Option<PlacedOutput>,
        fit: &F,
    ) -> (committed: Option<ConfiguredWindow>)
        requires
            old(self).wf(),
            forall|geometry: Rect| #[trigger] fit.requires((geometry,)),
        ensures
            final(self).wf(),
            match decision {
                ConfigureDecision::Apply { target, preserve_client_fullscreen } => {
                    let transfer = spec_output_transfer(source_output, destination_output);
                    let before = recorded_presentation(old(self)@, surface);
                    let carried = transfer is Some && before is Some;
                    &&& committed == Some(ConfiguredWindow {
                        target,
                        clear_client_constraints: !preserve_client_fullscreen,
                        remember_placement: carried,
                    })
                    &&& if carried {
                        &&& recorded_presentation(final(self)@, surface) matches Some(after)
                        &&& carried_across(before->0, after, transfer->0, *fit)
                        &&& final(self)@ == configured_view(
                            with_presentation(old(self)@, surface, after),
                            surface,
                            preserve_client_fullscreen,
                        )
                    } else {
                        final(self)@ == configured_view(old(self)@, surface, preserve_client_fullscreen)
                    }
                },
                _ => committed is None && final(self)@ == old(self)@,
            },
    {
        let ConfigureDecision::Apply { target, preserve_client_fullscreen } = decision else {
            return None;
        };
        let ghost start = self@;
        let transferred = match output_transfer(source_output, destination_output) {
            Some(transfer) => self.transfer_shell_presentation(surface, transfer, fit),
            None => false,
        };
        let ghost moved = self@;
        if !preserve_client_fullscreen {
            self.clear_restore_geometry(surface);
        }
        proof {
            if transferred {
                let after = recorded_presentation(moved, surface)->0;
                assert(recorded_presentation(self@, surface) == Some(after));
            }
        }
        Some(ConfiguredWindow {
            target,
            clear_client_constraints: !preserve_client_fullscreen,
            remember_placement: transferred,
        })
    }

    /// Starts leaving shell fullscreen: takes the window's shell
    /// presentation, and its restore geometry when the exit falls back to
    /// it, and returns the exit.
    pub fn begin_fullscreen_exit(
        &mut self,
        surface: u64,
        scrolling_layout: bool,
        current: Rect,
        layout_maximized: bool,
    ) -> (exit: FullscreenExit)
        requires
            old(self).wf(),
        ensures
            final(self).wf(),
            ({
                let planned = spec_fullscreen_exit(
                    recorded_presentation(old(self)@, surface),
                    scrolling_layout,
                    recorded_restore_geometry(old(self)@, surface),
                    current,
                    layout_maximized,
                );
                &&& exit == planned
                &&& final(self)@ == taken_for_toggle(old(self)@, surface, planned is Unmanaged)
            }),
    {
        let restore = self.recorded_restore(surface);
        let presentation = self.take_shell_presentation(surface);
        let exit = plan_fullscreen_exit(presentation, scrolling_layout, restore, current, layout_maximized);
        let used = match exit {
            FullscreenExit::Unmanaged { .. } => true,
            _ => false,
        };
        if used {
            self.take_restore_geometry(surface);
        }
        proof {
            if old(self)@.spec_window_record_for_surface(surface) is Some {
                assert(self@.windows =~= taken_for_toggle(old(self)@, surface, used).windows);
            }
        }
        exit
    }

    /// Finishes leaving shell fullscreen, with the maximized geometry of the
    /// window's output when a shell maximize must be placed anew. Returns the
    /// window's new geometry and action; `None` when no maximized geometry
    /// could be found, with the previous presentation put back.
    pub fn finish_fullscreen_exit(
        &mut self,
        surface: u64,
        exit: FullscreenExit,
        maximized_geometry: Option<Rect>,
    ) -> (placed: Option<(Rect, WindowAction)>)
        requires
            old(self).wf(),
        ensures
            final(self).wf(),
            match exit {
                FullscreenExit::Normal { target } => placed == Some((target, WindowAction::Restore))
                    && final(self)@ == old(self)@,
                FullscreenExit::LayoutMaximized { target } => placed == Some((target, WindowAction::Maximize))
                    && final(self)@ == old(self)@,
                FullscreenExit::Unmanaged { target, layout_maximized } => placed == Some((
                    target,
                    if layout_maximized { WindowAction::Maximize } else { WindowAction::Restore },
                )) && final(self)@ == old(self)@,
                FullscreenExit::ShellMaximized { normal_geometry, known_target, previous } => {
                    let target = match known_target {
                        Some(known) => Some(known),
                        None => maximized_geometry,
                    };
                    match target {
                        Some(target) => {
                            &&& placed == Some((target, WindowAction::Maximize))
                            &&& final(self)@ == with_presentation(
                                old(self)@,
                                surface,
                                ShellWindowPresentation::Maximized { normal_geometry },
                            )
                        },
                        None => {
                            &&& placed is None
                            &&& final(self)@ == match previous {
                                Some(previous) => with_presentation(old(self)@, surface, previous),
                                None => old(self)@,
                            }
                        },
                    }
                },
            },
    {
        match exit {
            FullscreenExit::Normal { target } => Some((target, WindowAction::Restore)),
            FullscreenExit::LayoutMaximized { target } => Some((target, WindowAction::Maximize)),
            FullscreenExit::Unmanaged { target, layout_maximized } => Some((
                target,
                if layout_maximized { WindowAction::Maximize } else { WindowAction::Restore },
            )),
            FullscreenExit::ShellMaximized { normal_geometry, known_target, previous } => {
                let target = match known_target {
                    Some(known) => Some(known),
                    None => maximized_geometry,
                };
                match target {
                    Some(target) => {
                        self.set_shell_presentation(surface, ShellWindowPresentation::Maximized { normal_geometry });
                        Some((target, WindowAction::Maximize))
                    },
                    None => {
                        if let Some(previous) = previous {
                            self.set_shell_presentation(surface, previous);
                        }
                        None
                    },
                }
            },
        }
    }

    /// Enters shell fullscreen at the geometry of the window's output,
    /// recording what it covers. `None`, with nothing changed, when the
    /// output's geometry is unknown.
    pub fn enter_fullscreen(
        &mut self,
        surface: u64,
        client_maximized: bool,
        current: Rect,
        layout_maximized: bool,
        layout_restore_geometry: Option<Rect>,
        output_geometry: Option<Rect>,
    ) -> (placed: Option<(Rect, WindowAction)>)
        requires
            old(self).wf(),
        ensures
            final(self).wf(),
            match output_geometry {
                None => placed is None && final(self)@ == old(self)@,
                Some(target) => {
                    let (presentation, used) = spec_fullscreen_entry(
                        recorded_presentation(old(self)@, surface),
                        client_maximized,
                        recorded_restore_geometry(old(self)@, surface),
                        current,
                        layout_maximized,
                        layout_restore_geometry,
                    );
                    &&& placed == Some((target, WindowAction::Fullscreen))
                    &&& final(self)@ == with_presentation(taken_for_toggle(old(self)@, surface, used), surface, presentation)
                },
            },
    {
        let target = match output_geometry {
            Some(target) => target,
            None => {
                return None;
            },
        };
        let restore = self.recorded_restore(surface);
        let presentation = self.take_shell_presentation(surface);
        let (entered, used) = plan_fullscreen_entry(
            presentation,
            client_maximized,
            restore,
            current,
            layout_maximized,
            layout_restore_geometry,
        );
        if used {
            self.take_restore_geometry(surface);
        }
        let ghost taken = self@;
        proof {
            if old(self)@.spec_window_record_for_surface(surface) is Some {
                assert(self@.windows =~= taken_for_toggle(old(self)@, surface, used).windows);
            }
        }
        self.set_shell_presentation(surface, entered);
        Some((target, WindowAction::Fullscreen))
    }
}

} // verus!
