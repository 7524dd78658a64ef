use deniald::frontend::{WaylandFrontend, WorkspaceLocation, WorkspaceSettings};
use deniald::geometry::{Rect, VerticalExtent};
use deniald::presentation::ShellWindowPresentation;
use deniald::topology::OutputId;
use deniald::window_registry::WindowId;
use deniald::window_management::{
    ClientState, ConfigureDecision, ConfiguredWindow, FullscreenExit, MaximizeToggle, PlacedOutput, ScrollingMaximize,
    WindowAction,
};
use deniald::xwayland::{XWaylandState, XwaylandError};

fn frontend() -> WaylandFrontend {
    let mut frontend = WaylandFrontend::new(WorkspaceSettings { enabled: true, count: 4 });
    frontend.set_outputs(vec![OutputId(1), OutputId(2)]);
    frontend
}

fn location(output: u64, workspace: u8) -> WorkspaceLocation {
    WorkspaceLocation { output: OutputId(output), workspace }
}

#[test]
fn windows_join_the_active_workspace_of_their_output() {
    let mut frontend = frontend();
    assert_eq!(frontend.active_workspace(OutputId(1)), 1);
    assert!(frontend.switch_workspace(1, 3));
    assert!(!frontend.switch_workspace(1, 3));
    assert!(!frontend.switch_workspace(1, 5));
    assert!(!frontend.switch_workspace(9, 2));
    assert_eq!(frontend.reconcile_workspace_assignment(7, OutputId(1), false), Some(location(1, 3)));
    assert_eq!(frontend.workspace_location(7), Some(location(1, 3)));
    assert!(frontend.window_is_on_active_workspace(7));
    assert!(frontend.switch_workspace(1, 2));
    assert!(!frontend.window_is_on_active_workspace(7));
    assert_eq!(frontend.reconcile_workspace_assignment(8, OutputId(3), false), None);
}

#[test]
fn adjacent_workspaces_wrap_around() {
    let frontend = frontend();
    assert_eq!(frontend.adjacent_workspace(1, 1), Some(2));
    assert_eq!(frontend.adjacent_workspace(1, -1), Some(4));
    assert_eq!(frontend.adjacent_workspace(2, 9), Some(2));
    assert_eq!(frontend.adjacent_workspace(5, 1), None);
}

#[test]
fn minimized_windows_leave_and_rejoin_workspaces() {
    let mut frontend = frontend();
    frontend.reconcile_workspace_assignment(7, OutputId(2), false);
    frontend.record_workspace_focus(7);
    assert_eq!(frontend.remembered_workspace_focus(2, 1), Some(7));
    frontend.mark_window_minimized(7, OutputId(1));
    assert_eq!(frontend.workspace_location(7), None);
    assert_eq!(frontend.remembered_workspace_focus(2, 1), None);
    assert!(frontend.switch_workspace(2, 4));
    assert_eq!(frontend.restore_window_workspace(7), Some(location(2, 4)));
}

#[test]
fn moving_windows_between_workspaces_and_outputs() {
    let mut frontend = frontend();
    frontend.reconcile_workspace_assignment(7, OutputId(1), false);
    assert_eq!(frontend.move_window_to_workspace(7, Some(OutputId(2)), 3), Some(location(2, 3)));
    assert_eq!(frontend.move_window_to_workspace(7, None, 9), None);
    assert_eq!(frontend.move_window_to_workspace(7, Some(OutputId(5)), 2), None);
    assert_eq!(frontend.move_window_to_workspace(8, None, 2), None);
}

#[test]
fn shrinking_the_workspace_count_merges_into_the_last() {
    let mut frontend = frontend();
    frontend.switch_workspace(1, 4);
    frontend.reconcile_workspace_assignment(7, OutputId(1), false);
    assert!(frontend.set_workspace_settings(WorkspaceSettings { enabled: true, count: 2 }));
    assert_eq!(frontend.workspace_count(), 2);
    assert_eq!(frontend.workspace_location(7), Some(location(1, 2)));
    assert_eq!(frontend.active_workspace(OutputId(1)), 2);
    assert!(!frontend.set_workspace_settings(WorkspaceSettings { enabled: true, count: 2 }));
    assert!(frontend.set_workspace_settings(WorkspaceSettings { enabled: false, count: 2 }));
    assert!(!frontend.workspaces_enabled());
    assert!(frontend.window_is_on_active_workspace(7));
}

#[test]
fn window_records_follow_their_surfaces() {
    let mut frontend = frontend();
    let id = frontend.register_window(40, 7);
    assert_eq!(id, WindowId::new(7));
    assert_eq!(frontend.window_id_for_surface(40), Some(WindowId::new(7)));
    assert!(!frontend.surface_is_minimized(40));
    frontend.set_window_minimized(7, true);
    assert!(frontend.window_is_minimized(7));
    assert!(frontend.toggle_window_pinned(7));
    assert!(frontend.window_id_is_pinned(7));
    assert!(!frontend.toggle_window_pinned(7));

    let normal = Rect::new(10, 20, 300, 200);
    assert!(frontend.store_restore_geometry(40, normal));
    assert_eq!(frontend.take_restore_geometry(40), Some(normal));
    assert_eq!(frontend.take_restore_geometry(40), None);
    frontend.set_shell_presentation(40, ShellWindowPresentation::Maximized { normal_geometry: normal });
    assert_eq!(
        frontend.take_shell_presentation(40),
        Some(ShellWindowPresentation::Maximized { normal_geometry: normal })
    );
    assert_eq!(frontend.take_shell_presentation(40), None);
}

#[test]
fn the_xwayland_facade_has_nothing_to_offer() {
    let mut state = XWaylandState::start(true, 120).expect("starting never fails");
    assert!(state.display_name().is_none());
    assert!(!state.take_xembed_event_signal());
    assert!(state.try_xembed_event().is_none());
    assert_eq!(state.send_selection("text/plain".to_owned()), Err(XwaylandError::Unsupported));
    assert_eq!(XwaylandError::Unsupported.message(), "Xwayland support is not compiled in");
    assert_eq!(state.publish_selection(None), Ok(()));
    let mut frontend = frontend();
    assert_eq!(frontend.set_xwayland_scale(240), Ok(false));
}

#[test]
fn focused_windows_report_their_workspace_slot() {
    let mut frontend = frontend();
    frontend.reconcile_workspace_assignment(7, OutputId(2), false);
    assert_eq!(frontend.focused_workspace_window(Some(7)), Some((7, 2)));
    assert_eq!(frontend.focused_workspace_window(Some(8)), None);
    assert_eq!(frontend.focused_workspace_window(None), None);
    frontend.register_window(70, 7);
    assert!(frontend.client_window_minimizable(70, 7));
    frontend.set_window_minimized(7, true);
    assert!(!frontend.client_window_minimizable(70, 7));
}

#[test]
fn vertical_restore_extents_are_taken_once() {
    let mut frontend = frontend();
    assert!(!frontend.store_vertical_restore(50, VerticalExtent { y: 10, height: 20 }));
    frontend.register_window(50, 9);
    assert!(frontend.store_vertical_restore(50, VerticalExtent { y: 10, height: 20 }));
    assert_eq!(frontend.take_vertical_restore(50), Some(VerticalExtent { y: 10, height: 20 }));
    assert_eq!(frontend.take_vertical_restore(50), None);
}

#[test]
fn workspace_membership_names_output_and_workspace() {
    let mut frontend = frontend();
    frontend.switch_workspace(2, 3);
    frontend.reconcile_workspace_assignment(7, OutputId(2), false);
    assert!(frontend.window_belongs_to_workspace(7, 2, 3));
    assert!(!frontend.window_belongs_to_workspace(7, 2, 1));
    assert!(!frontend.window_belongs_to_workspace(7, 1, 3));
    assert!(!frontend.window_belongs_to_workspace(7, -2, 3));
}

#[test]
fn maximize_toggles_keep_window_records_in_step() {
    let mut frontend = frontend();
    frontend.register_window(40, 7);
    let current = Rect::new(20, 40, 900, 700);
    let maximized = Rect::new(8, 32, 1904, 1040);

    let toggle = frontend.begin_maximize_toggle(40, ClientState::default(), current, false, false).expect("not locked");
    assert_eq!(toggle, MaximizeToggle::Maximize { normal_geometry: current, known_target: None, previous: None });
    assert_eq!(frontend.finish_maximize_toggle(40, toggle, Some(maximized)), Some((maximized, WindowAction::Maximize)));
    assert_eq!(
        frontend.window_record_for_surface(40).and_then(|record| record.shell_presentation),
        Some(ShellWindowPresentation::Maximized { normal_geometry: current })
    );

    let toggle = frontend.begin_maximize_toggle(40, ClientState::default(), maximized, false, false).expect("not locked");
    assert_eq!(toggle, MaximizeToggle::Restore { target: current });
    assert_eq!(frontend.finish_maximize_toggle(40, toggle, None), Some((current, WindowAction::Restore)));
    assert_eq!(frontend.window_record_for_surface(40).and_then(|record| record.shell_presentation), None);
}

#[test]
fn maximize_without_an_output_puts_the_presentation_back() {
    let mut frontend = frontend();
    frontend.register_window(40, 7);
    let normal = Rect::new(20, 40, 900, 700);
    let fullscreen = ShellWindowPresentation::fullscreen(Rect::new(0, 0, 1920, 1080), None, None);
    frontend.set_shell_presentation(40, fullscreen);
    assert_eq!(frontend.begin_maximize_toggle(40, ClientState::default(), normal, false, true), None);
    let toggle = frontend.begin_maximize_toggle(40, ClientState::default(), normal, true, true).expect("fullscreen");
    assert_eq!(
        toggle,
        MaximizeToggle::Maximize { normal_geometry: Rect::new(0, 0, 1920, 1080), known_target: None, previous: Some(fullscreen) }
    );
    assert_eq!(frontend.window_record_for_surface(40).and_then(|record| record.shell_presentation), None);
    assert_eq!(frontend.finish_maximize_toggle(40, toggle, None), None);
    assert_eq!(frontend.window_record_for_surface(40).and_then(|record| record.shell_presentation), Some(fullscreen));
}

#[test]
fn fullscreen_round_trip_through_window_records() {
    let mut frontend = frontend();
    frontend.register_window(40, 7);
    let normal = Rect::new(20, 40, 900, 700);
    let maximized = Rect::new(8, 32, 1904, 1040);
    let output = Rect::new(0, 0, 1920, 1080);
    frontend.set_shell_presentation(40, ShellWindowPresentation::Maximized { normal_geometry: normal });

    assert_eq!(frontend.enter_fullscreen(40, false, maximized, false, None, None), None);
    assert_eq!(
        frontend.enter_fullscreen(40, false, maximized, false, None, Some(output)),
        Some((output, WindowAction::Fullscreen))
    );
    let exit = frontend.begin_fullscreen_exit(40, false, output, false);
    assert_eq!(
        exit,
        FullscreenExit::ShellMaximized {
            normal_geometry: normal,
            known_target: Some(maximized),
            previous: Some(ShellWindowPresentation::fullscreen(maximized, Some(ShellWindowPresentation::Maximized { normal_geometry: normal }), None)),
        }
    );
    assert_eq!(frontend.finish_fullscreen_exit(40, exit, None), Some((maximized, WindowAction::Maximize)));
    assert_eq!(
        frontend.window_record_for_surface(40).and_then(|record| record.shell_presentation),
        Some(ShellWindowPresentation::Maximized { normal_geometry: normal })
    );
}

#[test]
fn unmanaged_fullscreen_exit_uses_the_restore_geometry() {
    let mut frontend = frontend();
    frontend.register_window(40, 7);
    let remembered = Rect::new(5, 6, 700, 500);
    assert!(frontend.store_restore_geometry(40, remembered));
    let exit = frontend.begin_fullscreen_exit(40, false, Rect::new(0, 0, 1920, 1080), false);
    assert_eq!(exit, FullscreenExit::Unmanaged { target: remembered, layout_maximized: false });
    assert_eq!(frontend.take_restore_geometry(40), None);
    assert_eq!(frontend.finish_fullscreen_exit(40, exit, None), Some((remembered, WindowAction::Restore)));
}

#[test]
fn disconnected_outputs_hand_their_windows_to_the_fallback() {
    let mut frontend = frontend();
    frontend.switch_workspace(2, 3);
    frontend.reconcile_workspace_assignment(7, OutputId(2), false);
    frontend.record_workspace_focus(7);
    frontend.set_outputs(vec![OutputId(1)]);
    frontend.reconcile_workspace_outputs();
    assert_eq!(frontend.workspace_location(7), Some(location(1, 3)));
    assert_eq!(frontend.remembered_workspace_focus(1, 3), Some(7));
    assert_eq!(frontend.remembered_workspace_focus(2, 3), None);
    assert_eq!(frontend.workspace_state_snapshot(), vec![(1, 1)]);
    frontend.set_outputs(Vec::new());
    frontend.reconcile_workspace_outputs();
    assert_eq!(frontend.workspace_location(7), None);
    assert!(frontend.workspace_state_snapshot().is_empty());
}

#[test]
fn window_ids_are_equal_exactly_when_their_values_are() {
    assert_eq!(WindowId::new(5), WindowId::new(5));
    assert_ne!(WindowId::new(5), WindowId::new(6));
    assert_eq!(WindowId::new(9).get(), 9);
}

#[test]
fn scrolling_maximize_leaves_shell_fullscreen() {
    let mut frontend = frontend();
    frontend.register_window(40, 7);
    let output = Rect::new(0, 0, 1920, 1080);
    let normal = Rect::new(20, 40, 900, 700);
    frontend.set_shell_presentation(40, ShellWindowPresentation::fullscreen(output, None, None));
    frontend.store_restore_geometry(40, normal);

    let plan = ScrollingMaximize::Toggle { maximized: true, change_layout: true, leave_fullscreen: true };
    assert_eq!(frontend.finish_scrolling_maximize(40, plan, false), None);
    assert!(frontend.window_record_for_surface(40).and_then(|record| record.shell_presentation).is_some());

    assert_eq!(frontend.finish_scrolling_maximize(40, plan, true), Some(WindowAction::Maximize));
    let record = frontend.window_record_for_surface(40).expect("window record");
    assert_eq!(record.shell_presentation, None);
    assert_eq!(record.restore_geometry, None);

    let restore = ScrollingMaximize::Toggle { maximized: false, change_layout: true, leave_fullscreen: false };
    assert_eq!(frontend.finish_scrolling_maximize(40, restore, true), Some(WindowAction::Restore));
    assert_eq!(frontend.finish_scrolling_maximize(40, ScrollingMaximize::Locked, true), None);
}

#[test]
fn configures_move_shell_presentations_between_outputs() {
    let mut frontend = frontend();
    frontend.register_window(40, 7);
    let normal = Rect::new(2_020, 100, 800, 600);
    frontend.set_shell_presentation(40, ShellWindowPresentation::Maximized { normal_geometry: normal });
    frontend.store_restore_geometry(40, normal);
    let left = PlacedOutput { id: OutputId(1), geometry: Rect::new(0, 0, 1920, 1080) };
    let right = PlacedOutput { id: OutputId(2), geometry: Rect::new(1920, 0, 2560, 1440) };
    let target = Rect::new(0, 0, 1920, 1080);

    let keep = |geometry: Rect| geometry;
    let committed = frontend.commit_configure(
        40,
        ConfigureDecision::Apply { target, preserve_client_fullscreen: false },
        Some(right),
        Some(left),
        &keep,
    );
    assert_eq!(
        committed,
        Some(ConfiguredWindow { target, clear_client_constraints: true, remember_placement: true })
    );
    let record = frontend.window_record_for_surface(40).expect("window record");
    assert_eq!(
        record.shell_presentation,
        Some(ShellWindowPresentation::Maximized { normal_geometry: Rect::new(100, 100, 800, 600) })
    );
    assert_eq!(record.restore_geometry, None);

    frontend.store_restore_geometry(40, normal);
    let echoed = frontend.commit_configure(
        40,
        ConfigureDecision::Apply { target, preserve_client_fullscreen: true },
        Some(left),
        Some(left),
        &keep,
    );
    assert_eq!(
        echoed,
        Some(ConfiguredWindow { target, clear_client_constraints: false, remember_placement: false })
    );
    assert_eq!(frontend.window_record_for_surface(40).and_then(|record| record.restore_geometry), Some(normal));
    assert_eq!(frontend.commit_configure(40, ConfigureDecision::Rejected, Some(left), Some(right), &keep), None);
}

#[test]
fn carried_restore_geometry_is_fitted_into_the_destination() {
    let mut frontend = frontend();
    frontend.register_window(40, 7);
    let normal = Rect::new(3_800, 900, 800, 600);
    let maximized = Rect::new(1_920, 0, 2_560, 1_440);
    frontend.set_shell_presentation(
        40,
        ShellWindowPresentation::fullscreen(maximized, Some(ShellWindowPresentation::Maximized { normal_geometry: normal }), None),
    );
    let right = PlacedOutput { id: OutputId(2), geometry: Rect::new(1_920, 0, 2_560, 1_440) };
    let left = PlacedOutput { id: OutputId(1), geometry: Rect::new(0, 0, 1_920, 1_080) };
    let work_area = Rect::new(0, 0, 1_920, 1_040);
    let fit = |geometry: Rect| {
        let width = geometry.width.min(work_area.width);
        let height = geometry.height.min(work_area.height);
        Rect::new(
            geometry.x.clamp(work_area.x, work_area.x + work_area.width - width),
            geometry.y.clamp(work_area.y, work_area.y + work_area.height - height),
            width,
            height,
        )
    };
    let target = Rect::new(0, 0, 1_920, 1_080);
    let committed = frontend.commit_configure(
        40,
        ConfigureDecision::Apply { target, preserve_client_fullscreen: false },
        Some(right),
        Some(left),
        &fit,
    );
    assert_eq!(
        committed,
        Some(ConfiguredWindow { target, clear_client_constraints: true, remember_placement: true })
    );
    assert_eq!(
        frontend.window_record_for_surface(40).and_then(|record| record.shell_presentation),
        Some(ShellWindowPresentation::fullscreen(
            Rect::new(0, 0, 1_920, 1_040),
            Some(ShellWindowPresentation::Maximized { normal_geometry: Rect::new(1_120, 440, 800, 600) }),
            None,
        ))
    );
}
