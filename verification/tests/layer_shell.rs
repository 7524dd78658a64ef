use deniald::layer_shell::{
    commit_layer_surface, exclusive_layer_keyboard_focus, layer_surface_output, LayerCommit, LayerKind, MappedLayer,
};
use deniald::frontend::{WaylandFrontend, WorkspaceSettings};
use deniald::settings::settings_event_relevant;
use deniald::topology::OutputId;

fn layer(surface: u64, kind: LayerKind, exclusive_keyboard: bool) -> MappedLayer {
    MappedLayer { surface, kind, exclusive_keyboard }
}

#[test]
fn overlay_layers_win_exclusive_focus_before_top_layers() {
    let first = vec![layer(1, LayerKind::Top, true), layer(2, LayerKind::Top, true)];
    let second = vec![layer(3, LayerKind::Overlay, true), layer(4, LayerKind::Overlay, false)];
    assert_eq!(exclusive_layer_keyboard_focus(&vec![first.clone(), second.clone()]), Some(3));
    assert_eq!(exclusive_layer_keyboard_focus(&vec![first.clone()]), Some(2));
    assert_eq!(
        exclusive_layer_keyboard_focus(&vec![vec![layer(5, LayerKind::Bottom, true)], vec![layer(6, LayerKind::Top, false)]]),
        None
    );
    assert_eq!(exclusive_layer_keyboard_focus(&Vec::new()), None);
}

#[test]
fn layer_surfaces_land_on_the_requested_or_first_output() {
    let outputs = vec![OutputId(4), OutputId(9)];
    assert_eq!(layer_surface_output(Some(OutputId(9)), &outputs), Some(OutputId(9)));
    assert_eq!(layer_surface_output(Some(OutputId(2)), &outputs), Some(OutputId(4)));
    assert_eq!(layer_surface_output(None, &outputs), Some(OutputId(4)));
    assert_eq!(layer_surface_output(Some(OutputId(2)), &Vec::new()), None);
    assert_eq!(commit_layer_surface(true, true, false, true), LayerCommit::Arrange { send_initial_configure: true });
    assert_eq!(commit_layer_surface(true, true, true, true), LayerCommit::Arrange { send_initial_configure: false });
    assert_eq!(commit_layer_surface(false, true, false, true), LayerCommit::Ignored);
    assert_eq!(commit_layer_surface(true, false, false, true), LayerCommit::Ignored);
}

#[test]
fn settings_events_name_the_file_or_nothing() {
    assert!(settings_event_relevant(Some(b"settings.json".as_slice()), b"settings.json"));
    assert!(!settings_event_relevant(Some(b"editor-save.tmp".as_slice()), b"settings.json"));
    assert!(settings_event_relevant(None, b"settings.json"));
}

#[test]
fn the_frontend_asks_outputs_for_exclusive_layers_in_its_order() {
    let mut frontend = WaylandFrontend::new(WorkspaceSettings { enabled: false, count: 1 });
    frontend.set_outputs(vec![OutputId(2), OutputId(1)]);
    let maps = vec![
        (OutputId(1), vec![layer(10, LayerKind::Top, true)]),
        (OutputId(2), vec![layer(20, LayerKind::Top, true), layer(21, LayerKind::Top, false)]),
        (OutputId(3), vec![layer(30, LayerKind::Overlay, true)]),
    ];
    assert_eq!(frontend.exclusive_layer_keyboard_focus(&maps), Some(20));
    frontend.set_outputs(vec![OutputId(1)]);
    assert_eq!(frontend.exclusive_layer_keyboard_focus(&maps), Some(10));
    frontend.set_outputs(vec![OutputId(4)]);
    assert_eq!(frontend.exclusive_layer_keyboard_focus(&maps), None);
}
