//! Shell-owned maximize and fullscreen state and its reversible transitions.
//!
//! Normal windows have no presentation entry. Fullscreen retains the state it
//! overlays, so every exit path has one authoritative destination.

use vstd::prelude::*;

use crate::geometry::Rect;

verus! {

/// The shell-owned presentation of one protocol window.
#[derive(Clone, Copy, Debug, PartialEq, Eq, Structural)]
pub enum ShellWindowPresentation {
    Maximized { normal_geometry: Rect },
    Fullscreen { return_geometry: Rect, underlay: ShellFullscreenUnderlay },
}

/// The state a fullscreen window returns to.
#[derive(Clone, Copy, Debug, PartialEq, Eq, Structural)]
pub enum ShellFullscreenUnderlay {
    Normal,
    Maximized { normal_geometry: Rect },
    LayoutMaximized { normal_geometry: Rect },
}

/// What toggling the fixed-layout maximize does.
#[derive(Clone, Copy, Debug, PartialEq, Eq, Structural)]
pub enum ShellFixedMaximizeTransition {
    RestoreNormal { geometry: Rect },
    SelectMaximized { normal_geometry: Rect, existing_geometry: Option<Rect> },
}

/// Where leaving fullscreen goes.
#[derive(Clone, Copy, Debug, PartialEq, Eq, Structural)]
pub enum ShellFullscreenExit {
    Normal { geometry: Rect },
    Maximized { normal_geometry: Rect, geometry: Rect, layout_owned: bool },
}

/// The fullscreen presentation entered from `previous`: a shell maximize is
/// retained as the underlay, else a layout maximize, else the normal state.
pub open spec fn spec_fullscreen(
    return_geometry: Rect,
    previous: Option<ShellWindowPresentation>,
    layout_normal_geometry: Option<Rect>,
) -> ShellWindowPresentation {
    let underlay = match previous {
        Some(ShellWindowPresentation::Maximized { normal_geometry }) => ShellFullscreenUnderlay::Maximized {
            normal_geometry,
        },
        _ => match layout_normal_geometry {
            Some(normal_geometry) => ShellFullscreenUnderlay::LayoutMaximized { normal_geometry },
            None => ShellFullscreenUnderlay::Normal,
        },
    };
    ShellWindowPresentation::Fullscreen { return_geometry, underlay }
}

/// Whether `after` has the shape of `before` and each geometry it retains is
/// related by `related` to the geometry `before` retains in its place.
pub open spec fn spec_geometries_related(
    before: ShellWindowPresentation,
    after: ShellWindowPresentation,
    related: spec_fn(Rect, Rect) -> bool,
) -> bool {
    match (before, after) {
        (
            ShellWindowPresentation::Maximized { normal_geometry: b },
            ShellWindowPresentation::Maximized { normal_geometry: a },
        ) => related(b, a),
        (
            ShellWindowPresentation::Fullscreen { return_geometry: b, underlay: under_before },
            ShellWindowPresentation::Fullscreen { return_geometry: a, underlay: under_after },
        ) => related(b, a) && match (under_before, under_after) {
            (ShellFullscreenUnderlay::Normal, ShellFullscreenUnderlay::Normal) => true,
            (
                ShellFullscreenUnderlay::Maximized { normal_geometry: nb },
                ShellFullscreenUnderlay::Maximized { normal_geometry: na },
            ) => related(nb, na),
            (
                ShellFullscreenUnderlay::LayoutMaximized { normal_geometry: nb },
                ShellFullscreenUnderlay::LayoutMaximized { normal_geometry: na },
            ) => related(nb, na),
            _ => false,
        },
        _ => false,
    }
}

/// A weaker relation between the geometries of two presentations still holds.
pub proof fn lemma_geometries_related_weaken(
    before: ShellWindowPresentation,
    after: ShellWindowPresentation,
    related: spec_fn(Rect, Rect) -> bool,
    weaker: spec_fn(Rect, Rect) -> bool,
)
    requires
        spec_geometries_related(before, after, related),
        forall|b: Rect, a: Rect| #[trigger] related(b, a) ==> weaker(b, a),
    ensures
        spec_geometries_related(before, after, weaker),
{
}

impl ShellWindowPresentation {
    pub open spec fn spec_has_maximized_underlay(self) -> bool {
        match self {
            ShellWindowPresentation::Maximized { .. } => true,
            ShellWindowPresentation::Fullscreen { underlay, .. } => !(underlay is Normal),
        }
    }

    /// The geometry the window has when it is neither maximized nor fullscreen.
    pub open spec fn spec_normal_geometry(self) -> Rect {
        match self {
            ShellWindowPresentation::Maximized { normal_geometry } => normal_geometry,
            ShellWindowPresentation::Fullscreen { return_geometry, underlay } => match underlay {
                ShellFullscreenUnderlay::Normal => return_geometry,
                ShellFullscreenUnderlay::Maximized { normal_geometry } => normal_geometry,
                ShellFullscreenUnderlay::LayoutMaximized { normal_geometry } => normal_geometry,
            },
        }
    }

    pub open spec fn spec_toggle_fixed_maximize(self) -> ShellFixedMaximizeTransition {
        match self {
            ShellWindowPresentation::Maximized { normal_geometry } => ShellFixedMaximizeTransition::RestoreNormal {
                geometry: normal_geometry,
            },
            ShellWindowPresentation::Fullscreen { return_geometry, underlay } => match underlay {
                ShellFullscreenUnderlay::Maximized { normal_geometry } => ShellFixedMaximizeTransition::SelectMaximized {
                    normal_geometry,
                    existing_geometry: Some(return_geometry),
                },
                ShellFullscreenUnderlay::Normal => ShellFixedMaximizeTransition::SelectMaximized {
                    normal_geometry: return_geometry,
                    existing_geometry: None,
                },
                ShellFullscreenUnderlay::LayoutMaximized { normal_geometry } => ShellFixedMaximizeTransition::SelectMaximized {
                    normal_geometry,
                    existing_geometry: None,
                },
            },
        }
    }

    pub open spec fn spec_exit_fullscreen(self) -> Option<ShellFullscreenExit> {
        match self {
            ShellWindowPresentation::Maximized { .. } => None,
            ShellWindowPresentation::Fullscreen { return_geometry, underlay } => match underlay {
                ShellFullscreenUnderlay::Normal => Some(ShellFullscreenExit::Normal { geometry: return_geometry }),
                ShellFullscreenUnderlay::Maximized { normal_geometry } => Some(ShellFullscreenExit::Maximized {
                    normal_geometry,
                    geometry: return_geometry,
                    layout_owned: false,
                }),
                ShellFullscreenUnderlay::LayoutMaximized { normal_geometry } => Some(ShellFullscreenExit::Maximized {
                    normal_geometry,
                    geometry: return_geometry,
                    layout_owned: true,
                }),
            },
        }
    }

    /// The same presentation with its normal geometry replaced.
    pub open spec fn spec_update_normal_geometry(self, geometry: Rect) -> ShellWindowPresentation {
        match self {
            ShellWindowPresentation::Maximized { .. } => ShellWindowPresentation::Maximized { normal_geometry: geometry },
            ShellWindowPresentation::Fullscreen { return_geometry, underlay } => match underlay {
                ShellFullscreenUnderlay::Normal => ShellWindowPresentation::Fullscreen {
                    return_geometry: geometry,
                    underlay: ShellFullscreenUnderlay::Normal,
                },
                ShellFullscreenUnderlay::Maximized { .. } => ShellWindowPresentation::Fullscreen {
                    return_geometry,
                    underlay: ShellFullscreenUnderlay::Maximized { normal_geometry: geometry },
                },
                ShellFullscreenUnderlay::LayoutMaximized { .. } => ShellWindowPresentation::Fullscreen {
                    return_geometry,
                    underlay: ShellFullscreenUnderlay::LayoutMaximized { normal_geometry: geometry },
                },
            },
        }
    }

    pub fn fullscreen(
        return_geometry: Rect,
        previous: Option<ShellWindowPresentation>,
        layout_normal_geometry: Option<Rect>,
    ) -> (presentation: ShellWindowPresentation)
        ensures
            presentation == spec_fullscreen(return_geometry, previous, layout_normal_geometry),
    {
        let underlay = match (previous, layout_normal_geometry) {
            (Some(ShellWindowPresentation::Maximized { normal_geometry }), _) => ShellFullscreenUnderlay::Maximized {
                normal_geometry,
            },
            (_, Some(normal_geometry)) => ShellFullscreenUnderlay::LayoutMaximized { normal_geometry },
            _ => ShellFullscreenUnderlay::Normal,
        };
        ShellWindowPresentation::Fullscreen { return_geometry, underlay }
    }

    pub fn is_fullscreen(self) -> (fullscreen: bool)
        ensures
            fullscreen == (self is Fullscreen),
    {
        matches!(self, ShellWindowPresentation::Fullscreen { .. })
    }

    pub fn has_maximized_underlay(self) -> (maximized: bool)
        ensures
            maximized == self.spec_has_maximized_underlay(),
    {
        match self {
            ShellWindowPresentation::Maximized { .. } => true,
            ShellWindowPresentation::Fullscreen { underlay, .. } => match underlay {
                ShellFullscreenUnderlay::Normal => false,
                _ => true,
            },
        }
    }

    pub fn normal_geometry(self) -> (geometry: Rect)
        ensures
            geometry == self.spec_normal_geometry(),
    {
        match self {
            ShellWindowPresentation::Maximized { normal_geometry } => normal_geometry,
            ShellWindowPresentation::Fullscreen { return_geometry, underlay } => match underlay {
                ShellFullscreenUnderlay::Normal => return_geometry,
                ShellFullscreenUnderlay::Maximized { normal_geometry } => normal_geometry,
                ShellFullscreenUnderlay::LayoutMaximized { normal_geometry } => normal_geometry,
            },
        }
    }

    pub fn toggle_fixed_maximize(self) -> (transition: ShellFixedMaximizeTransition)
        ensures
            transition == self.spec_toggle_fixed_maximize(),
    {
        match self {
            ShellWindowPresentation::Maximized { normal_geometry } => ShellFixedMaximizeTransition::RestoreNormal {
                geometry: normal_geometry,
            },
            ShellWindowPresentation::Fullscreen { return_geometry, underlay } => match underlay {
                ShellFullscreenUnderlay::Maximized { normal_geometry } => ShellFixedMaximizeTransition::SelectMaximized {
                    normal_geometry,
                    existing_geometry: Some(return_geometry),
                },
                ShellFullscreenUnderlay::Normal => ShellFixedMaximizeTransition::SelectMaximized {
                    normal_geometry: return_geometry,
                    existing_geometry: None,
                },
                ShellFullscreenUnderlay::LayoutMaximized { normal_geometry } => ShellFixedMaximizeTransition::SelectMaximized {
                    normal_geometry,
                    existing_geometry: None,
                },
            },
        }
    }

    pub fn exit_fullscreen(self) -> (exit: Option<ShellFullscreenExit>)
        ensures
            exit == self.spec_exit_fullscreen(),
    {
        match self {
            ShellWindowPresentation::Maximized { .. } => None,
            ShellWindowPresentation::Fullscreen { return_geometry, underlay } => match underlay {
                ShellFullscreenUnderlay::Normal => Some(ShellFullscreenExit::Normal { geometry: return_geometry }),
                ShellFullscreenUnderlay::Maximized { normal_geometry } => Some(ShellFullscreenExit::Maximized {
                    normal_geometry,
                    geometry: return_geometry,
                    layout_owned: false,
                }),
                ShellFullscreenUnderlay::LayoutMaximized { normal_geometry } => Some(ShellFullscreenExit::Maximized {
                    normal_geometry,
                    geometry: return_geometry,
                    layout_owned: true,
                }),
            },
        }
    }

    pub fn update_normal_geometry(&mut self, geometry: Rect)
        ensures
            *final(self) == old(self).spec_update_normal_geometry(geometry),
    {
        let updated = match *self {
            ShellWindowPresentation::Maximized { .. } => ShellWindowPresentation::Maximized { normal_geometry: geometry },
            ShellWindowPresentation::Fullscreen { return_geometry, underlay } => match underlay {
                ShellFullscreenUnderlay::Normal => ShellWindowPresentation::Fullscreen {
                    return_geometry: geometry,
                    underlay: ShellFullscreenUnderlay::Normal,
                },
                ShellFullscreenUnderlay::Maximized { .. } => ShellWindowPresentation::Fullscreen {
                    return_geometry,
                    underlay: ShellFullscreenUnderlay::Maximized { normal_geometry: geometry },
                },
                ShellFullscreenUnderlay::LayoutMaximized { .. } => ShellWindowPresentation::Fullscreen {
                    return_geometry,
                    underlay: ShellFullscreenUnderlay::LayoutMaximized { normal_geometry: geometry },
                },
            },
        };
        *self = updated;
    }

    /// Maps every retained geometry through `map`, keeping the presentation's shape.
    pub fn map_geometries<F: Fn(Rect) -> Rect>(&mut self, map: F)
        requires
            forall|geometry: Rect| #[trigger] map.requires((geometry,)),
        ensures
            spec_geometries_related(*old(self), *final(self), |before: Rect, after: Rect| map.ensures((before,), after)),
    {
        let mapped = match *self {
            ShellWindowPresentation::Maximized { normal_geometry } => ShellWindowPresentation::Maximized {
                normal_geometry: map(normal_geometry),
            },
            ShellWindowPresentation::Fullscreen { return_geometry, underlay } => {
                let return_geometry = map(return_geometry);
                let underlay = match underlay {
                    ShellFullscreenUnderlay::Normal => ShellFullscreenUnderlay::Normal,
                    ShellFullscreenUnderlay::Maximized { normal_geometry } => ShellFullscreenUnderlay::Maximized {
                        normal_geometry: map(normal_geometry),
                    },
                    ShellFullscreenUnderlay::LayoutMaximized { normal_geometry } => ShellFullscreenUnderlay::LayoutMaximized {
                        normal_geometry: map(normal_geometry),
                    },
                };
                ShellWindowPresentation::Fullscreen { return_geometry, underlay }
            },
        };
        *self = mapped;
    }
}

/// Maximize, fullscreen, toggling maximize and toggling it again form one
/// reversible chain: the normal geometry recorded by the first maximize is the
/// geometry the last toggle restores, and the first toggle returns to the
/// maximized rectangle the window had before fullscreen.
pub proof fn law_maximize_fullscreen_chain_restores_normal(
    normal: Rect,
    maximized: Rect,
    layout_normal_geometry: Option<Rect>,
)
    ensures
        spec_fullscreen(
            maximized,
            Some(ShellWindowPresentation::Maximized { normal_geometry: normal }),
            layout_normal_geometry,
        ).spec_toggle_fixed_maximize() == (ShellFixedMaximizeTransition::SelectMaximized {
            normal_geometry: normal,
            existing_geometry: Some(maximized),
        }),
        (ShellWindowPresentation::Maximized { normal_geometry: normal }).spec_toggle_fixed_maximize()
            == (ShellFixedMaximizeTransition::RestoreNormal { geometry: normal }),
{
}

/// Leaving fullscreen goes back to exactly the state fullscreen was entered
/// from: a shell maximize with its normal geometry, else a layout-owned
/// maximize, else the normal state at the geometry fullscreen replaced.
pub proof fn law_exit_fullscreen_returns_to_entered_state(
    return_geometry: Rect,
    previous: Option<ShellWindowPresentation>,
    layout_normal_geometry: Option<Rect>,
)
    ensures
        spec_fullscreen(return_geometry, previous, layout_normal_geometry).spec_exit_fullscreen() == (
        match previous {
            Some(ShellWindowPresentation::Maximized { normal_geometry }) => Some(ShellFullscreenExit::Maximized {
                normal_geometry,
                geometry: return_geometry,
                layout_owned: false,
            }),
            _ => match layout_normal_geometry {
                Some(normal_geometry) => Some(ShellFullscreenExit::Maximized {
                    normal_geometry,
                    geometry: return_geometry,
                    layout_owned: true,
                }),
                None => Some(ShellFullscreenExit::Normal { geometry: return_geometry }),
            },
        }),
{
}

/// Replacing the normal geometry is read back by `normal_geometry` and keeps
/// whether the window is fullscreen and whether it has a maximized underlay.
pub proof fn law_update_normal_geometry_reads_back(presentation: ShellWindowPresentation, geometry: Rect)
    ensures
        presentation.spec_update_normal_geometry(geometry).spec_normal_geometry() == geometry,
        (presentation.spec_update_normal_geometry(geometry) is Fullscreen) == (presentation is Fullscreen),
        presentation.spec_update_normal_geometry(geometry).spec_has_maximized_underlay()
            == presentation.spec_has_maximized_underlay(),
{
}

/// Every presentation has a maximized underlay except fullscreen over the
/// normal state, which is exactly the case where leaving fullscreen restores
/// a normal window.
pub proof fn law_underlay_matches_exit(presentation: ShellWindowPresentation)
    requires
        presentation is Fullscreen,
    ensures
        presentation.spec_has_maximized_underlay() <==> (presentation.spec_exit_fullscreen() matches Some(
            ShellFullscreenExit::Maximized { .. },
        )),
{
}

} // verus!
