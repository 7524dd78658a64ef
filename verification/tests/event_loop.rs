use deniald::event_loop::{
    admit_output_apply_serial, session_deadline, session_end, take_background_work, BackgroundWork, SessionEnd,
    dispatch_when_background_slice_expires, claim_output_confirmation, dispatch_timeout, expire_output_confirmation,
    finish_output_confirmation, interactive_service_work_pending, observe_topology, output_transaction_waiting,
    plan_topology_apply, prepare_output_confirmation_rollback, retry_failed_hotplug, take_periodic_deadline,
    take_topology_reconfiguration_request, ActiveOutputConfirmation, ConfirmationAction, ConfirmationOutcome,
    OperationCadence, StaleConfirmation, TopologyApplyPlan, TopologyFlags, TopologyObservation,
    TopologyReconfigurationRequest, BACKGROUND_MAINTENANCE_INTERVAL_NANOS, BACKGROUND_SERVICE_INTERVAL_NANOS,
};
use deniald::vec_map::VecMap;
use deniald::topology::{output_hardware_changed, output_properties_changed, ConnectedOutput, DisplayMode, OutputId};

#[test]
fn resident_geometry_rollback_stops_frame_production_while_targets_drain() {
    assert!(output_transaction_waiting(false, false, true));
}

#[test]
fn idle_output_transaction_does_not_stop_frame_production() {
    assert!(!output_transaction_waiting(false, false, false));
}

#[test]
fn periodic_deadline_moves_one_interval_past_now() {
    let mut deadline = 100;
    assert!(!take_periodic_deadline(99, &mut deadline, 10));
    assert_eq!(deadline, 100);
    assert!(take_periodic_deadline(105, &mut deadline, 10));
    assert_eq!(deadline, 115);
    assert!(!take_periodic_deadline(114, &mut deadline, 10));
    assert!(take_periodic_deadline(u64::MAX, &mut deadline, 10));
    assert_eq!(deadline, u64::MAX);
}

#[test]
fn cadence_runs_each_operation_once_per_interval() {
    let mut cadence = OperationCadence::new(1_000);
    assert!(cadence.take_service_due(1_000));
    assert!(!cadence.take_service_due(1_001));
    assert_eq!(cadence.next_service, 1_000 + BACKGROUND_SERVICE_INTERVAL_NANOS);
    assert!(cadence.take_maintenance_due(1_000));
    assert_eq!(cadence.next_maintenance, 1_000 + BACKGROUND_MAINTENANCE_INTERVAL_NANOS);
    assert_eq!(cadence.limit_dispatch_timeout(1_000, u64::MAX), BACKGROUND_SERVICE_INTERVAL_NANOS);
    assert_eq!(cadence.limit_dispatch_timeout(1_000, 5), 5);
    assert_eq!(cadence.limit_dispatch_timeout(u64::MAX, 5), 0);
}

#[test]
fn interactive_work_is_any_queued_item() {
    assert!(!interactive_service_work_pending(0, 0, 0));
    assert!(interactive_service_work_pending(0, 2, 0));
    assert!(interactive_service_work_pending(0, 0, 1));
}

#[test]
fn background_slice_expires_after_its_length() {
    assert!(!dispatch_when_background_slice_expires(100, 149, 50));
    assert!(dispatch_when_background_slice_expires(100, 150, 50));
}

#[test]
fn dispatch_timeout_respects_input_fingerprint_and_deadline() {
    assert_eq!(dispatch_timeout(0, 50_000_000, false, false, None), Some(50_000_000));
    assert_eq!(dispatch_timeout(0, 50_000_000, true, false, None), Some(20_000_000));
    assert_eq!(dispatch_timeout(0, 50_000_000, true, true, None), Some(0));
    assert_eq!(dispatch_timeout(10, 50_000_000, false, false, Some(1_010)), Some(1_000));
    assert_eq!(dispatch_timeout(10, 50_000_000, false, false, Some(10)), None);
}

fn flags() -> TopologyFlags {
    TopologyFlags {
        topology_dirty: false,
        kms_reconfigure_requested: false,
        resident_geometry_reconfigure_requested: false,
        output_control_dirty: false,
    }
}

#[test]
fn topology_request_consumes_explicit_requests() {
    let mut idle = flags();
    assert_eq!(take_topology_reconfiguration_request(false, &mut idle), None);
    let mut requested = TopologyFlags { topology_dirty: true, kms_reconfigure_requested: true, ..flags() };
    assert_eq!(
        take_topology_reconfiguration_request(false, &mut requested),
        Some(TopologyReconfigurationRequest {
            scanout_rebased: false,
            kms_reconfigure_requested: true,
            resident_geometry_reconfigure_requested: false,
        })
    );
    assert_eq!(requested, flags());
}

fn request(rebased: bool, kms: bool, resident: bool) -> TopologyReconfigurationRequest {
    TopologyReconfigurationRequest {
        scanout_rebased: rebased,
        kms_reconfigure_requested: kms,
        resident_geometry_reconfigure_requested: resident,
    }
}

#[test]
fn observing_no_outputs_waits_and_marks_the_first_disconnection() {
    let mut disconnected = false;
    let mut state = flags();
    assert_eq!(
        observe_topology(request(false, false, false), 0, 2, false, false, &mut disconnected, &mut state),
        TopologyObservation::WaitingForOutputs { newly_disconnected: true }
    );
    assert!(disconnected && state.topology_dirty && state.output_control_dirty);
    assert_eq!(
        observe_topology(request(false, false, false), 0, 2, false, false, &mut disconnected, &mut state),
        TopologyObservation::WaitingForOutputs { newly_disconnected: false }
    );
    let mut state = flags();
    assert_eq!(
        observe_topology(request(false, false, false), 1, 0, false, false, &mut disconnected, &mut state),
        TopologyObservation::Reconfigure { changed: true }
    );
    assert!(!disconnected && state.output_control_dirty);
}

#[test]
fn deferred_or_unchanged_topology_is_stable() {
    let mut disconnected = false;
    let mut state = flags();
    assert_eq!(
        observe_topology(request(false, false, false), 2, 2, false, false, &mut disconnected, &mut state),
        TopologyObservation::Stable
    );
    assert_eq!(
        observe_topology(request(false, false, false), 1, 2, true, true, &mut disconnected, &mut state),
        TopologyObservation::Stable
    );
    assert_eq!(
        observe_topology(request(false, false, true), 2, 2, false, false, &mut disconnected, &mut state),
        TopologyObservation::Reconfigure { changed: false }
    );
}

#[test]
fn topology_apply_drains_busy_targets_before_reconfiguring() {
    let mut state = flags();
    assert_eq!(
        plan_topology_apply(request(false, false, true), false, false, true, &mut state),
        TopologyApplyPlan::Drain
    );
    assert!(state.topology_dirty && state.resident_geometry_reconfigure_requested);
    let mut state = flags();
    assert_eq!(
        plan_topology_apply(request(false, false, true), false, false, false, &mut state),
        TopologyApplyPlan::ResidentGeometry
    );
    assert_eq!(
        plan_topology_apply(request(true, false, true), false, true, true, &mut state),
        TopologyApplyPlan::Hotplug
    );
    assert_eq!(state, flags());
    let mut state = flags();
    assert!(retry_failed_hotplug(true, true, &mut state));
    assert!(state.topology_dirty);
    assert!(!retry_failed_hotplug(false, true, &mut state));
}

fn mode(clock: u32) -> DisplayMode {
    DisplayMode {
        clock,
        hdisplay: 1920,
        hsync_start: 2008,
        hsync_end: 2052,
        htotal: 2200,
        hskew: 0,
        vdisplay: 1080,
        vsync_start: 1084,
        vsync_end: 1089,
        vtotal: 1125,
        vscan: 0,
        vrefresh: 60,
        flags: 5,
        mode_type: 72,
        name0: 0,
        name1: 0,
        name2: 0,
        name3: 0,
    }
}

fn connected(id: u64, crtc: u32, clock: u32) -> ConnectedOutput {
    ConnectedOutput { id: OutputId(id), crtc, mode: mode(clock), connector: 7, vrr_enabled: false }
}

#[test]
fn output_changes_are_detected_by_driving_properties() {
    let scanouts = vec![connected(1, 10, 148_500), connected(2, 11, 148_500)];
    assert!(!output_properties_changed(&vec![connected(2, 11, 148_500)], &scanouts));
    assert!(output_properties_changed(&vec![connected(2, 12, 148_500)], &scanouts));
    assert!(output_properties_changed(&vec![connected(1, 10, 74_250)], &scanouts));
    assert!(output_properties_changed(&vec![connected(3, 10, 148_500)], &scanouts));
    assert!(output_hardware_changed(&vec![connected(2, 11, 148_500)], &scanouts));
    assert!(!output_hardware_changed(&scanouts.clone(), &scanouts));
}

#[test]
fn rollback_power_keeps_the_last_state_of_each_output() {
    assert!(prepare_output_confirmation_rollback(None, &vec![(OutputId(1), true)]).is_none());
    let (power, timeout) = prepare_output_confirmation_rollback(
        Some(15_000),
        &vec![(OutputId(1), true), (OutputId(2), false), (OutputId(1), false)],
    )
    .expect("a timeout asks for confirmation");
    assert_eq!(timeout, 15_000);
    let mut power = power;
    power.sort();
    assert_eq!(power, vec![(OutputId(1), false), (OutputId(2), false)]);
}

fn confirmation(token: u64, deadline: u64) -> ActiveOutputConfirmation<&'static str, ()> {
    ActiveOutputConfirmation {
        token,
        deadline,
        rollback_configuration: "previous",
        rollback_power: vec![(OutputId(3), true)],
        prepared_persistence: None,
    }
}

#[test]
fn unconfirmed_configuration_rolls_back_at_its_deadline() {
    let mut active = Some(confirmation(9, 500));
    let mut configuration = "applied";
    let mut power = VecMap::new();
    let mut state = flags();
    assert_eq!(expire_output_confirmation(499, &mut active, &mut configuration, &mut power, &mut state), None);
    assert_eq!(configuration, "applied");
    assert_eq!(expire_output_confirmation(500, &mut active, &mut configuration, &mut power, &mut state), Some(9));
    assert!(active.is_none());
    assert_eq!(configuration, "previous");
    assert_eq!(power.entries(), vec![(3, true)]);
    assert!(state.resident_geometry_reconfigure_requested && state.output_control_dirty);
}

#[test]
fn confirmation_requests_need_the_current_token() {
    let mut active: Option<ActiveOutputConfirmation<&'static str, ()>> = None;
    assert!(matches!(claim_output_confirmation(&mut active, 1), Err(StaleConfirmation::NothingPending)));
    let mut active = Some(confirmation(4, 500));
    assert!(matches!(claim_output_confirmation(&mut active, 3), Err(StaleConfirmation::StaleToken)));
    assert!(active.is_some());
    let pending = claim_output_confirmation(&mut active, 4).ok().expect("token matches");
    assert!(active.is_none());

    let mut configuration = "applied";
    let mut power = VecMap::new();
    let mut state = flags();
    assert_eq!(
        finish_output_confirmation(pending, ConfirmationAction::Keep, false, &mut configuration, &mut power, &mut state),
        ConfirmationOutcome::PersistenceFailed
    );
    assert_eq!(configuration, "previous");

    let mut configuration = "applied";
    let mut state = flags();
    assert_eq!(
        finish_output_confirmation(confirmation(4, 0), ConfirmationAction::Keep, true, &mut configuration, &mut power, &mut state),
        ConfirmationOutcome::Kept
    );
    assert_eq!(configuration, "applied");
    assert!(state.output_control_dirty && !state.resident_geometry_reconfigure_requested);
    assert_eq!(
        finish_output_confirmation(confirmation(4, 0), ConfirmationAction::Rollback, true, &mut configuration, &mut power, &mut state),
        ConfirmationOutcome::RolledBack
    );
    assert_eq!(configuration, "previous");
    assert_eq!(power.entries(), vec![(3, true)]);
}

#[test]
fn a_later_power_request_for_an_output_replaces_an_earlier_one() {
    let mut active = Some(confirmation(9, 500));
    let mut configuration = "applied";
    let mut power = VecMap::new();
    power.insert(3, false);
    power.insert(5, true);
    let mut state = flags();
    assert_eq!(expire_output_confirmation(500, &mut active, &mut configuration, &mut power, &mut state), Some(9));
    assert_eq!(power.get(&3), Some(true));
    assert_eq!(power.get(&5), Some(true));
    assert_eq!(power.len(), 2);
}

#[test]
fn background_work_follows_cadence_events_and_idle_deadlines() {
    let mut cadence = OperationCadence::new(0);
    assert_eq!(
        take_background_work(&mut cadence, 0, false, false, None),
        BackgroundWork { services: true, maintenance: true }
    );
    assert_eq!(
        take_background_work(&mut cadence, 1, false, false, None),
        BackgroundWork { services: false, maintenance: false }
    );
    assert_eq!(
        take_background_work(&mut cadence, 2, true, false, Some(2)),
        BackgroundWork { services: true, maintenance: true }
    );
    assert_eq!(cadence.next_service, BACKGROUND_SERVICE_INTERVAL_NANOS);
}

#[test]
fn sessions_end_on_shutdown_deadline_frames_or_device_loss() {
    assert_eq!(session_end(true, 0, Some(0), 9, Some(1), true), Some(SessionEnd::Shutdown));
    assert_eq!(session_end(false, 5, Some(5), 9, Some(1), true), Some(SessionEnd::DeadlineReached));
    assert_eq!(session_end(false, 4, Some(5), 9, Some(9), false), Some(SessionEnd::FrameLimitReached));
    assert_eq!(session_end(false, 4, Some(5), 8, Some(9), true), Some(SessionEnd::DeviceRemoved));
    assert_eq!(session_end(false, 4, None, 8, None, false), None);
    assert_eq!(session_deadline(10, Some(5)), Ok(Some(15)));
    assert_eq!(session_deadline(10, None), Ok(None));
    assert_eq!(session_deadline(u64::MAX, Some(1)), Err(()));
}

#[test]
fn stale_output_configurations_are_refused() {
    let mut state = flags();
    assert!(admit_output_apply_serial(4, 4, &mut state));
    assert_eq!(state, flags());
    assert!(!admit_output_apply_serial(3, 4, &mut state));
    assert!(state.topology_dirty);
}
