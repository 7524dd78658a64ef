use deniald::geometry::{
    authoritative_geometry_rejects_configure, bound_geometry_size, configured_window_size,
    maximized_shell_content_geometry, preserves_client_fullscreen_geometry, shell_content_geometry,
    translated_restore_geometry, Rect, Size, VerticalExtent,
};
use deniald::topology::OutputId;
use deniald::presentation::{
    ShellFixedMaximizeTransition, ShellFullscreenExit, ShellFullscreenUnderlay, ShellWindowPresentation,
};
use deniald::window_management::{
    client_state_transition, geometry_authority, managed_client_grab_allowed, plan_fullscreen_entry,
    plan_fullscreen_exit, plan_maximize_toggle, presented_action, route_client_state_request,
    stores_client_restore, unconstrained_placement, ClientRequestRoute, ClientState, ClientStateRequestKind,
    ClientStateTransition, FullscreenExit, GeometryAuthority, MaximizeToggle, UnconstrainedPlacement, WindowAction,
    plan_vertical_maximize, VerticalMaximize, plan_configure_command, ConfigureDecision, plan_scrolling_maximize,
    ScrollingMaximize, output_transfer, OutputTransfer, PlacedOutput, route_toplevel_by_id, route_focused_toplevel,
    ToplevelRoute,
};

fn rect(x: i32, y: i32, width: i32, height: i32) -> Rect {
    Rect::new(x, y, width, height)
}

fn size(width: i32, height: i32) -> Size {
    Size { width, height }
}

fn geometry(x: i32, y: i32, width: i32, height: i32) -> Rect {
    rect(x, y, width, height)
}

#[test]
fn managed_layout_accepts_shell_fullscreen_geometry() {
    let tile = rect(10, 10, 940, 1040);
    let fullscreen = rect(0, 0, 1920, 1080);

    assert!(authoritative_geometry_rejects_configure(true, tile, fullscreen));
    assert!(!authoritative_geometry_rejects_configure(true, tile, tile));
    assert!(!authoritative_geometry_rejects_configure(false, tile, fullscreen));
}

#[test]
fn shell_fullscreen_overrides_fixed_client_size_hints() {
    let maximized = size(2542, 1397);
    let fullscreen = size(2560, 1440);

    assert_eq!(configured_window_size(fullscreen, maximized, maximized, false), maximized);
    assert_eq!(configured_window_size(fullscreen, maximized, maximized, true), fullscreen);
}

#[test]
fn managed_layout_overrides_fixed_client_size_hints() {
    let client_fixed = size(2280, 1397);
    let tile = size(1265, 1397);

    assert_eq!(configured_window_size(tile, client_fixed, client_fixed, false), client_fixed);
    assert_eq!(configured_window_size(tile, client_fixed, client_fixed, true), tile);
}

#[test]
fn managed_layout_maximize_reserves_the_shell_frame() {
    let frame = rect(8, 40, 1904, 1032);

    assert_eq!(maximized_shell_content_geometry(frame, true, true), rect(9, 41, 1902, 1030));
    assert_eq!(maximized_shell_content_geometry(frame, true, false), frame);
    assert_eq!(maximized_shell_content_geometry(frame, false, true), frame);
}

#[test]
fn maximize_fullscreen_maximize_restore_is_one_reversible_chain() {
    let normal = geometry(20, 40, 900, 700);
    let maximized = geometry(8, 32, 1904, 1040);
    let fullscreen = ShellWindowPresentation::fullscreen(
        maximized,
        Some(ShellWindowPresentation::Maximized { normal_geometry: normal }),
        None,
    );

    assert_eq!(
        fullscreen.toggle_fixed_maximize(),
        ShellFixedMaximizeTransition::SelectMaximized { normal_geometry: normal, existing_geometry: Some(maximized) }
    );
    assert_eq!(
        ShellWindowPresentation::Maximized { normal_geometry: normal }.toggle_fixed_maximize(),
        ShellFixedMaximizeTransition::RestoreNormal { geometry: normal }
    );
}

#[test]
fn fullscreen_retains_scrolling_maximize_as_a_layout_owned_underlay() {
    let normal = geometry(50, 60, 800, 600);
    let maximized = geometry(8, 32, 1904, 1040);
    let fullscreen = ShellWindowPresentation::fullscreen(maximized, None, Some(normal));

    assert_eq!(
        fullscreen.exit_fullscreen(),
        Some(ShellFullscreenExit::Maximized { normal_geometry: normal, geometry: maximized, layout_owned: true })
    );
}

#[test]
fn size_hints_of_zero_leave_a_side_unbounded() {
    assert_eq!(configured_window_size(size(800, 0), size(0, 0), size(0, 0), false), size(800, 1));
    assert_eq!(configured_window_size(size(100, 100), size(300, 50), size(0, 80), false), size(300, 80));
    assert_eq!(bound_geometry_size(rect(3, 4, -5, 0)), rect(3, 4, 1, 1));
}

#[test]
fn shell_frames_need_room_for_their_border() {
    assert_eq!(shell_content_geometry(rect(0, 0, 2, 10), true), rect(0, 0, 2, 10));
    assert_eq!(shell_content_geometry(rect(0, 0, 3, 3), true), rect(1, 1, 1, 1));
    assert!(preserves_client_fullscreen_geometry(true, rect(0, 0, 5, 5), rect(0, 0, 5, 5)));
    assert!(!preserves_client_fullscreen_geometry(false, rect(0, 0, 5, 5), rect(0, 0, 5, 5)));
}

#[test]
fn restore_geometry_keeps_its_offset_on_another_output() {
    let restore = rect(1_950, 100, 800, 600);
    assert_eq!(
        translated_restore_geometry(restore, rect(1_920, 0, 1_920, 1_080), rect(0, 0, 2_560, 1_440)),
        rect(30, 100, 800, 600)
    );
    assert_eq!(
        translated_restore_geometry(rect(i32::MAX, 0, 1, 1), rect(0, 0, 1, 1), rect(10, 0, 1, 1)).x,
        i32::MAX
    );
}

#[test]
fn maximize_toggle_round_trip_restores_the_window() {
    let current = rect(20, 40, 900, 700);
    let (first, used) = plan_maximize_toggle(None, false, false, None, current);
    assert!(!used);
    assert_eq!(first, MaximizeToggle::Maximize { normal_geometry: current, known_target: None, previous: None });
    let presentation = ShellWindowPresentation::Maximized { normal_geometry: current };
    let (second, used) = plan_maximize_toggle(Some(presentation), false, false, None, rect(0, 0, 1920, 1080));
    assert!(used);
    assert_eq!(second, MaximizeToggle::Restore { target: current });
}

#[test]
fn client_state_decides_unmanaged_maximize_toggles() {
    let current = rect(0, 0, 640, 480);
    let remembered = rect(10, 10, 300, 200);
    assert_eq!(
        plan_maximize_toggle(None, false, true, Some(remembered), current),
        (MaximizeToggle::Restore { target: remembered }, true)
    );
    assert_eq!(
        plan_maximize_toggle(None, true, false, Some(remembered), current),
        (MaximizeToggle::Maximize { normal_geometry: remembered, known_target: None, previous: None }, true)
    );
    let shell = ShellWindowPresentation::Maximized { normal_geometry: remembered };
    assert_eq!(
        plan_maximize_toggle(Some(shell), true, false, None, current),
        (MaximizeToggle::Maximize { normal_geometry: remembered, known_target: None, previous: Some(shell) }, false)
    );
}

#[test]
fn fullscreen_exit_returns_to_the_retained_state() {
    let normal = rect(50, 60, 800, 600);
    let maximized = rect(8, 32, 1904, 1040);
    let layout = ShellWindowPresentation::fullscreen(maximized, None, Some(normal));
    assert_eq!(
        plan_fullscreen_exit(Some(layout), true, None, maximized, false),
        FullscreenExit::LayoutMaximized { target: maximized }
    );
    assert_eq!(
        plan_fullscreen_exit(Some(layout), false, None, maximized, false),
        FullscreenExit::ShellMaximized { normal_geometry: normal, known_target: None, previous: Some(layout) }
    );
    let plain = ShellWindowPresentation::fullscreen(normal, None, None);
    let exit = plan_fullscreen_exit(Some(plain), false, None, maximized, false);
    assert_eq!(exit, FullscreenExit::Normal { target: normal });
    assert_eq!(exit.action(), WindowAction::Restore);
    let unmanaged = plan_fullscreen_exit(None, false, Some(normal), maximized, true);
    assert_eq!(unmanaged, FullscreenExit::Unmanaged { target: normal, layout_maximized: true });
    assert_eq!(unmanaged.action(), WindowAction::Maximize);
}

#[test]
fn fullscreen_entry_keeps_what_it_covers() {
    let current = rect(0, 0, 1000, 800);
    let remembered = rect(5, 5, 400, 300);
    assert_eq!(
        plan_fullscreen_entry(None, true, Some(remembered), current, false, None),
        (
            ShellWindowPresentation::Fullscreen {
                return_geometry: current,
                underlay: ShellFullscreenUnderlay::Maximized { normal_geometry: remembered },
            },
            true,
        )
    );
    assert_eq!(
        plan_fullscreen_entry(None, false, Some(remembered), current, true, None),
        (
            ShellWindowPresentation::Fullscreen {
                return_geometry: current,
                underlay: ShellFullscreenUnderlay::LayoutMaximized { normal_geometry: current },
            },
            false,
        )
    );
}

#[test]
fn client_state_requests_are_routed_and_measured() {
    assert_eq!(
        route_client_state_request(ClientStateRequestKind::Maximize, true, true, true, true),
        ClientRequestRoute::Exact
    );
    assert_eq!(
        route_client_state_request(ClientStateRequestKind::Unmaximize, false, true, true, false),
        ClientRequestRoute::Apply { layout_maximized: Some(false) }
    );
    assert_eq!(
        route_client_state_request(ClientStateRequestKind::Maximize, false, false, true, true),
        ClientRequestRoute::RefusedByLayout
    );
    assert_eq!(
        route_client_state_request(ClientStateRequestKind::Fullscreen, false, false, true, false),
        ClientRequestRoute::Apply { layout_maximized: None }
    );
    let before = ClientState { maximized: true, fullscreen: false };
    let transition = client_state_transition(ClientStateRequestKind::Unfullscreen, before);
    assert_eq!(transition, ClientStateTransition { entering: false, was_constrained: true, unconstrained_after: false });
    let entering = client_state_transition(ClientStateRequestKind::Fullscreen, ClientState::default());
    assert!(stores_client_restore(entering, true, rect(0, 0, 10, 10), false));
    assert!(!stores_client_restore(entering, true, rect(0, 0, 0, 10), false));
    assert!(!stores_client_restore(entering, true, rect(0, 0, 10, 10), true));
    assert_eq!(unconstrained_placement(true, Some(rect(1, 1, 1, 1))), UnconstrainedPlacement::ArrangeLayout);
    assert_eq!(unconstrained_placement(false, None), UnconstrainedPlacement::ClientSized);
    assert_eq!(presented_action(true, true), WindowAction::Fullscreen);
    assert_eq!(presented_action(false, true), WindowAction::Maximize);
    assert_eq!(geometry_authority(WindowAction::Restore), GeometryAuthority::Pending);
    assert_eq!(geometry_authority(WindowAction::Fullscreen), GeometryAuthority::Shell);
}

#[test]
fn grabs_are_refused_while_the_shell_or_layout_owns_geometry() {
    let free = ClientState::default();
    assert!(managed_client_grab_allowed(false, free, false, false, false));
    assert!(!managed_client_grab_allowed(true, free, false, false, false));
    assert!(!managed_client_grab_allowed(false, ClientState { maximized: true, fullscreen: false }, false, false, false));
    assert!(!managed_client_grab_allowed(false, free, true, false, false));
    assert!(!managed_client_grab_allowed(false, free, false, false, true));
}

#[test]
fn vertical_maximize_spans_the_work_area_and_comes_back() {
    let current = rect(100, 300, 640, 480);
    let content = rect(1, 33, 1918, 1046);
    let spanned = plan_vertical_maximize(current, None, Some(content));
    assert_eq!(
        spanned,
        Some(VerticalMaximize::Span { target: rect(100, 33, 640, 1046), remembered: VerticalExtent { y: 300, height: 480 } })
    );
    assert_eq!(spanned.unwrap().authority(), GeometryAuthority::Shell);
    let restored = plan_vertical_maximize(rect(100, 33, 640, 1046), Some(VerticalExtent { y: 300, height: 480 }), None);
    assert_eq!(restored, Some(VerticalMaximize::Restore { target: current }));
    assert_eq!(restored.unwrap().authority(), GeometryAuthority::Pending);
    assert_eq!(plan_vertical_maximize(current, None, None), None);
}

#[test]
fn shell_configures_respect_geometry_owners_and_hints() {
    let current = rect(0, 0, 1920, 1080);
    let tile = rect(10, 10, 940, 1040);
    assert_eq!(
        plan_configure_command(tile, false, true, false, false, size(0, 0), size(0, 0), current, false),
        ConfigureDecision::IgnoredDuringResize
    );
    assert_eq!(
        plan_configure_command(tile, true, false, true, false, size(0, 0), size(0, 0), current, false),
        ConfigureDecision::IgnoredUnmanaged
    );
    assert_eq!(
        plan_configure_command(tile, false, false, false, true, size(0, 0), size(0, 0), current, false),
        ConfigureDecision::Rejected
    );
    assert_eq!(
        plan_configure_command(tile, false, false, false, false, size(0, 0), size(500, 500), current, false),
        ConfigureDecision::Apply { target: rect(10, 10, 500, 500), preserve_client_fullscreen: false }
    );
    assert_eq!(
        plan_configure_command(current, false, false, false, true, size(0, 0), size(0, 0), current, true),
        ConfigureDecision::Apply { target: current, preserve_client_fullscreen: true }
    );
    assert_eq!(
        plan_configure_command(tile, true, false, false, true, size(2000, 2000), size(2000, 2000), current, true),
        ConfigureDecision::Apply { target: tile, preserve_client_fullscreen: false }
    );
}

#[test]
fn replacing_the_normal_geometry_reads_back() {
    let normal = rect(1, 2, 300, 200);
    let replaced = rect(5, 6, 700, 500);
    let mut fullscreen = ShellWindowPresentation::fullscreen(rect(0, 0, 1920, 1080), None, Some(normal));
    assert!(fullscreen.has_maximized_underlay());
    fullscreen.update_normal_geometry(replaced);
    assert_eq!(fullscreen.normal_geometry(), replaced);
    assert!(fullscreen.is_fullscreen());
    let plain = ShellWindowPresentation::fullscreen(normal, None, None);
    assert!(!plain.has_maximized_underlay());
    assert_eq!(plain.exit_fullscreen(), Some(ShellFullscreenExit::Normal { geometry: normal }));
}

#[test]
fn locked_shell_fullscreen_refuses_client_requests() {
    assert_eq!(
        route_client_state_request(ClientStateRequestKind::Unfullscreen, false, false, false, true),
        ClientRequestRoute::ReassertShellFullscreen { layout_maximized: None }
    );
    assert_eq!(
        route_client_state_request(ClientStateRequestKind::Maximize, false, true, true, true),
        ClientRequestRoute::ReassertShellFullscreen { layout_maximized: Some(true) }
    );
    assert_eq!(
        route_client_state_request(ClientStateRequestKind::Maximize, false, false, false, false),
        ClientRequestRoute::Apply { layout_maximized: None }
    );
}

#[test]
fn scrolling_layout_maximize_flips_the_layout_slot() {
    assert_eq!(plan_scrolling_maximize(false, true, false), ScrollingMaximize::Locked);
    assert_eq!(
        plan_scrolling_maximize(false, false, false),
        ScrollingMaximize::Toggle { maximized: true, change_layout: true, leave_fullscreen: false }
    );
    assert_eq!(
        plan_scrolling_maximize(false, false, true),
        ScrollingMaximize::Toggle { maximized: false, change_layout: true, leave_fullscreen: false }
    );
    assert_eq!(
        plan_scrolling_maximize(true, true, true),
        ScrollingMaximize::Toggle { maximized: true, change_layout: false, leave_fullscreen: true }
    );
    assert_eq!(
        plan_scrolling_maximize(true, false, false),
        ScrollingMaximize::Toggle { maximized: true, change_layout: true, leave_fullscreen: true }
    );
}

#[test]
fn configures_carry_restore_geometry_only_between_distinct_outputs() {
    let left = PlacedOutput { id: OutputId(1), geometry: rect(0, 0, 1920, 1080) };
    let right = PlacedOutput { id: OutputId(2), geometry: rect(1920, 0, 2560, 1440) };
    assert_eq!(
        output_transfer(Some(left), Some(right)),
        Some(OutputTransfer { source: left.geometry, destination: right.geometry })
    );
    assert_eq!(output_transfer(Some(left), Some(left)), None);
    assert_eq!(output_transfer(None, Some(right)), None);
    assert_eq!(output_transfer(Some(left), None), None);
}

#[test]
fn toplevel_actions_go_to_local_or_client_windows() {
    assert_eq!(route_toplevel_by_id(4, true, Some(4), true), ToplevelRoute::Local { id: 4, focused: true });
    assert_eq!(route_toplevel_by_id(4, true, Some(5), false), ToplevelRoute::Local { id: 4, focused: false });
    assert_eq!(route_toplevel_by_id(4, false, Some(4), true), ToplevelRoute::Client { id: 4 });
    assert_eq!(route_toplevel_by_id(4, false, None, false), ToplevelRoute::Missing);
    assert_eq!(route_focused_toplevel(Some(2), Some(3)), ToplevelRoute::Local { id: 2, focused: true });
    assert_eq!(route_focused_toplevel(None, Some(3)), ToplevelRoute::Client { id: 3 });
    assert_eq!(route_focused_toplevel(None, None), ToplevelRoute::Missing);
}
