use std::cell::RefCell;

use deniald::gamma_control::{
    select_gamma_properties, software_dimming_reply, CrtcProperty, GammaApplyOutcome, GammaController,
    GammaOutput, GammaProbeError, GammaProperties, GammaUpdate, PropertyKind, Scanout, ScanoutGamma,
    SoftwareDimmingReply, SoftwareDimmingState,
};
use deniald::gamma_lut::{
    byte_order_of_probe, compose_drm_lut, decode_drm_lut, decode_software_dimming_request, linear_ramp, native_byte_order,
    ByteOrder, SoftwareDimmingRequest, SoftwareDimmingRequestError, SOFTWARE_DIMMING_PACKET_BYTES,
};
use deniald::gamma_protocol::{gamma_table, GammaChunk, GammaControlManager, GammaPayload, GammaRead, GammaReadStart};
use deniald::topology::OutputId;

fn order() -> ByteOrder {
    native_byte_order()
}

#[test]
fn native_byte_order_matches_the_machine() {
    let expected = if u16::from_ne_bytes([1, 0]) == 1 { ByteOrder::LittleEndian } else { ByteOrder::BigEndian };
    assert_eq!(native_byte_order(), expected);
}

#[test]
fn decodes_software_dimming_requests() {
    let mut read = [0u8; SOFTWARE_DIMMING_PACKET_BYTES];
    read[1..9].copy_from_slice(&42i64.to_le_bytes());
    assert_eq!(
        decode_software_dimming_request(&read),
        Ok(SoftwareDimmingRequest::Read { output: OutputId(42) })
    );

    let mut set = read;
    set[0] = 1;
    set[9] = 37;
    assert_eq!(
        decode_software_dimming_request(&set),
        Ok(SoftwareDimmingRequest::SetLevel { output: OutputId(42), level_percent: 37 })
    );
}

#[test]
fn rejects_invalid_software_dimming_packets() {
    assert_eq!(decode_software_dimming_request(&[0; 9]), Err(SoftwareDimmingRequestError::InvalidSize(9)));
    let mut invalid = [0u8; SOFTWARE_DIMMING_PACKET_BYTES];
    invalid[0] = 2;
    assert_eq!(
        decode_software_dimming_request(&invalid),
        Err(SoftwareDimmingRequestError::UnsupportedCommand(2))
    );
}

#[test]
fn software_dimming_rejects_unusable_outputs_and_caps_levels() {
    let mut zero = [0u8; SOFTWARE_DIMMING_PACKET_BYTES];
    assert_eq!(decode_software_dimming_request(&zero), Err(SoftwareDimmingRequestError::InvalidOutput(0)));
    zero[1..9].copy_from_slice(&(-5i64).to_le_bytes());
    assert_eq!(decode_software_dimming_request(&zero), Err(SoftwareDimmingRequestError::InvalidOutput(-5)));
    let mut bright = [0u8; SOFTWARE_DIMMING_PACKET_BYTES];
    bright[0] = 1;
    bright[1..9].copy_from_slice(&7i64.to_le_bytes());
    bright[9] = 250;
    assert_eq!(
        decode_software_dimming_request(&bright),
        Ok(SoftwareDimmingRequest::SetLevel { output: OutputId(7), level_percent: 100 })
    );
}

#[test]
fn linear_ramp_covers_the_full_unsigned_range() {
    let ramp = linear_ramp(4);
    assert_eq!(&ramp[..4], &[0, 21_845, 43_690, 65_535]);
    assert_eq!(&ramp[4..8], &ramp[..4]);
    assert_eq!(&ramp[8..], &ramp[..4]);
}

#[test]
fn decodes_interleaved_drm_color_lut_entries() {
    let mut bytes = Vec::new();
    for values in [[1u16, 2, 3], [4, 5, 6]] {
        for value in values {
            bytes.extend_from_slice(&value.to_ne_bytes());
        }
        bytes.extend_from_slice(&0u16.to_ne_bytes());
    }
    assert_eq!(decode_drm_lut(&bytes, 2, order()), Some(vec![1, 4, 2, 5, 3, 6]));
    assert_eq!(decode_drm_lut(&bytes[..15], 2, order()), None);
}

#[test]
fn internal_dimming_multiplies_every_external_gamma_channel() {
    let bytes = compose_drm_lut(&[100, 200, 300, 400, 500, 600], 2, 50, order());
    assert_eq!(decode_drm_lut(&bytes, 2, order()), Some(vec![50, 100, 150, 200, 250, 300]));
}

#[test]
fn dimming_rounds_to_the_nearest_value() {
    let bytes = compose_drm_lut(&[1, 3, 65_535], 1, 50, order());
    assert_eq!(decode_drm_lut(&bytes, 1, order()), Some(vec![1, 2, 32_768]));
    let full = compose_drm_lut(&[9, 8, 7], 1, 200, order());
    assert_eq!(decode_drm_lut(&full, 1, order()), Some(vec![9, 8, 7]));
}

fn gamma_property(handle: u32, value: u64) -> CrtcProperty {
    CrtcProperty { handle, value, name: b"GAMMA_LUT".to_vec(), kind: PropertyKind::Blob }
}

fn size_property(value: u64) -> CrtcProperty {
    CrtcProperty { handle: 99, value, name: b"GAMMA_LUT_SIZE".to_vec(), kind: PropertyKind::UnsignedRange }
}

#[test]
fn probing_selects_the_gamma_properties() {
    let properties = vec![
        CrtcProperty { handle: 1, value: 0, name: b"ACTIVE".to_vec(), kind: PropertyKind::Other },
        gamma_property(4, 77),
        size_property(256),
    ];
    assert_eq!(
        select_gamma_properties(&properties),
        Ok(GammaProperties { property: 4, inherited_blob: 77, size: 256 })
    );
    assert_eq!(select_gamma_properties(&vec![size_property(256)]), Err(GammaProbeError::MissingGammaLut));
    assert_eq!(select_gamma_properties(&vec![gamma_property(4, 0)]), Err(GammaProbeError::MissingGammaLutSize));
    assert_eq!(
        select_gamma_properties(&vec![gamma_property(4, 0), size_property(1)]),
        Err(GammaProbeError::InvalidSize(1))
    );
    assert_eq!(
        select_gamma_properties(&vec![gamma_property(4, 0), size_property(65_537)]),
        Err(GammaProbeError::InvalidSize(65_537))
    );
    let wrong_kind = CrtcProperty { kind: PropertyKind::UnsignedRange, ..gamma_property(4, 0) };
    assert_eq!(
        select_gamma_properties(&vec![wrong_kind, size_property(16)]),
        Err(GammaProbeError::MissingGammaLut)
    );
}

fn scanout(output: u64, crtc: u32) -> Scanout {
    Scanout { output: OutputId(output), crtc }
}

fn properties(size: u32) -> GammaProperties {
    GammaProperties { property: 4, inherited_blob: 0, size }
}

fn reconcile(controller: &mut GammaController, scanouts: &Vec<Scanout>, supported: &[u64], force: bool) {
    if controller.begin_reconcile(scanouts, force).is_none() {
        return;
    }
    for scanout in scanouts {
        if let ScanoutGamma::Probe { .. } = controller.reconcile_scanout(*scanout, force) {
            let probed = supported.contains(&scanout.output.0).then(|| properties(256));
            controller.record_probe(*scanout, probed, None, order());
        }
    }
}

#[test]
fn topology_match_requires_the_same_outputs_and_crtcs() {
    let mut controller = GammaController::new();
    reconcile(&mut controller, &vec![scanout(10, 1), scanout(20, 2)], &[10], false);

    assert!(controller.topology_matches(&vec![scanout(20, 2), scanout(10, 1)]));
    assert!(!controller.topology_matches(&vec![scanout(10, 3), scanout(20, 2)]));
    assert!(!controller.topology_matches(&vec![scanout(10, 1)]));
    assert!(!controller.topology_matches(&vec![scanout(10, 1), scanout(20, 2), scanout(30, 3)]));
}

#[test]
fn reconcile_probes_only_new_or_moved_outputs() {
    let mut controller = GammaController::new();
    let scanouts = vec![scanout(10, 1), scanout(20, 2)];
    reconcile(&mut controller, &scanouts, &[10], false);
    assert_eq!(controller.capabilities(), vec![(OutputId(10), 256)]);
    assert!(controller.begin_reconcile(&scanouts, false).is_none());

    let removed = controller.begin_reconcile(&vec![scanout(20, 2)], false).expect("topology changed");
    assert_eq!(removed.len(), 1);
    assert_eq!(removed[0].0, OutputId(10));
    assert_eq!(controller.reconcile_scanout(scanout(20, 2), false), ScanoutGamma::Unsupported);
    assert!(controller.capabilities().is_empty());
}

#[test]
fn moving_an_output_to_another_crtc_hands_back_its_old_state() {
    let mut controller = GammaController::new();
    reconcile(&mut controller, &vec![scanout(10, 1)], &[10], false);
    let moved = vec![scanout(10, 5)];
    assert!(controller.begin_reconcile(&moved, false).expect("crtc changed").is_empty());
    match controller.reconcile_scanout(scanout(10, 5), false) {
        ScanoutGamma::Probe { previous: Some(previous) } => assert_eq!(previous.crtc, 1),
        other => panic!("unexpected reconcile step {other:?}"),
    }
}

#[test]
fn unchanged_full_level_reinstalls_the_inherited_blob() {
    let mut controller = GammaController::new();
    reconcile(&mut controller, &vec![scanout(10, 1)], &[10], false);
    assert!(controller.dirty_outputs().is_empty());
    reconcile(&mut controller, &vec![scanout(10, 1)], &[10], true);
    assert_eq!(controller.dirty_outputs(), vec![OutputId(10)]);
    match controller.prepare_output(OutputId(10), order()) {
        Some(GammaUpdate::InstallInherited { crtc: 1, property: 4, blob: 0 }) => {}
        other => panic!("unexpected update {other:?}"),
    }
    assert!(controller.dirty_outputs().is_empty());
}

#[test]
fn software_dimming_composes_a_dimmed_identity_lut() {
    let mut controller = GammaController::new();
    reconcile(&mut controller, &vec![scanout(10, 1)], &[10], false);
    let requests = vec![SoftwareDimmingRequest::SetLevel { output: OutputId(10), level_percent: 50 }];
    controller.stage_changes(Vec::new(), &requests);
    assert_eq!(controller.internal_level(OutputId(10)), 50);
    let Some(GammaUpdate::CreateBlob { lut, .. }) = controller.prepare_output(OutputId(10), order()) else {
        panic!("dimming needs a new blob");
    };
    let ramp = decode_drm_lut(&lut, 256, order()).expect("a full LUT");
    assert_eq!(ramp[255], 32_768);
    assert_eq!(ramp[0], 0);
    assert_eq!(controller.blob_installed(OutputId(10), Some(31)), None);
    assert_eq!(controller.blob_installed(OutputId(10), Some(32)), Some(31));
    assert!(controller.prepare_output(OutputId(99), order()).is_none());
}

#[test]
fn client_ramps_must_fill_three_channels() {
    let mut controller = GammaController::new();
    reconcile(&mut controller, &vec![scanout(10, 1)], &[10], false);
    controller.stage_changes(vec![(OutputId(10), Some(vec![1, 2, 3]))], &Vec::new());
    match controller.prepare_output(OutputId(10), order()) {
        Some(GammaUpdate::WrongRampLength { entries: 3, expected: 768 }) => {}
        other => panic!("unexpected update {other:?}"),
    }
    let mut outcome = GammaApplyOutcome::new();
    assert!(controller.apply_failed(OutputId(10), &mut outcome));
    assert_eq!(outcome.failed_external, vec![OutputId(10)]);
    assert_eq!(outcome.failed_outputs, vec![OutputId(10)]);
    assert_eq!(controller.dirty_outputs(), vec![OutputId(10)]);
    assert!(!controller.apply_failed(OutputId(10), &mut outcome));
    assert_eq!(outcome.failed_outputs, vec![OutputId(10)]);
    let states = controller.software_states(
        &vec![SoftwareDimmingRequest::Read { output: OutputId(10) }, SoftwareDimmingRequest::Read { output: OutputId(5) }],
        &outcome,
    );
    assert_eq!(
        states,
        vec![
            SoftwareDimmingState { output: OutputId(10), level_percent: 100, supported: false },
            SoftwareDimmingState { output: OutputId(5), level_percent: 100, supported: false },
        ]
    );
}

#[test]
fn inherited_luts_become_the_base_ramp() {
    let mut controller = GammaController::new();
    let mut inherited = Vec::new();
    for values in [[10u16, 20, 30], [40, 50, 60]] {
        for value in values {
            inherited.extend_from_slice(&value.to_ne_bytes());
        }
        inherited.extend_from_slice(&0u16.to_ne_bytes());
    }
    controller.begin_reconcile(&vec![scanout(10, 1)], false);
    controller.reconcile_scanout(scanout(10, 1), false);
    controller.record_probe(
        scanout(10, 1),
        Some(GammaProperties { property: 4, inherited_blob: 12, size: 2 }),
        Some(inherited),
        order(),
    );
    controller.stage_changes(Vec::new(), &vec![SoftwareDimmingRequest::SetLevel { output: OutputId(10), level_percent: 50 }]);
    let Some(GammaUpdate::CreateBlob { lut, .. }) = controller.prepare_output(OutputId(10), order()) else {
        panic!("dimming needs a new blob");
    };
    assert_eq!(decode_drm_lut(&lut, 2, order()), Some(vec![5, 20, 10, 25, 15, 30]));
    let outputs = controller.take_outputs();
    assert_eq!(outputs.len(), 1);
    assert_eq!(outputs[0].1, GammaOutput { crtc: 1, property: 4, size: 2, inherited_blob: 12, installed_blob: None, dirty: false });
    assert!(controller.capabilities().is_empty());
}

#[test]
fn software_dimming_replies_follow_support() {
    let supported = SoftwareDimmingState { output: OutputId(3), level_percent: 40, supported: true };
    let unsupported = SoftwareDimmingState { supported: false, ..supported };
    let read = SoftwareDimmingRequest::Read { output: OutputId(3) };
    let set = SoftwareDimmingRequest::SetLevel { output: OutputId(3), level_percent: 40 };
    assert_eq!(
        software_dimming_reply(read, unsupported),
        SoftwareDimmingReply::Level { output: OutputId(3), level_percent: 40, supported: false }
    );
    assert_eq!(
        software_dimming_reply(set, supported),
        SoftwareDimmingReply::Accepted { output: OutputId(3), level_percent: 40 }
    );
    assert_eq!(software_dimming_reply(set, unsupported), SoftwareDimmingReply::Unavailable);
}

#[test]
fn gamma_controls_follow_capabilities() {
    let mut manager = GammaControlManager::new();
    assert_eq!(manager.register_gamma_control(Some(OutputId(1)), 100), None);
    assert_eq!(manager.control_size(Some(OutputId(1))), 0);
    let failed = manager.set_gamma_capabilities(vec![(OutputId(1), 256)]);
    assert_eq!(manager.control_size(Some(OutputId(1))), 256);
    assert_eq!(manager.control_size(None), 0);
    assert!(failed.is_empty());
    assert_eq!(manager.register_gamma_control(Some(OutputId(1)), 100), Some(256));
    assert_eq!(manager.register_gamma_control(Some(OutputId(1)), 101), None);
    assert_eq!(manager.register_gamma_control(None, 102), None);
    assert!(manager.gamma_control_is_current(OutputId(1), 100));

    assert_eq!(
        manager.begin_gamma_read(OutputId(1), 256, 100),
        GammaReadStart::Read { expected: 1_536, cancelled_read: None }
    );
    assert_eq!(manager.begin_gamma_read(OutputId(1), 256, 101), GammaReadStart::Ignored);
    manager.track_gamma_read(OutputId(1), 7);
    manager.complete_gamma_read(OutputId(1), 100, vec![1, 2, 3]);
    assert_eq!(manager.take_gamma_changes(), vec![(OutputId(1), Some(vec![1, 2, 3]))]);
    assert!(manager.take_gamma_changes().is_empty());

    let failed = manager.set_gamma_capabilities(vec![(OutputId(1), 1024)]);
    assert_eq!(failed.len(), 1);
    assert_eq!(failed[0].0, OutputId(1));
    assert_eq!(failed[0].1.resource, Some(100));
    assert!(!manager.gamma_control_is_current(OutputId(1), 100));
}

#[test]
fn destroyed_controls_drop_their_client_layer() {
    let mut manager = GammaControlManager::new();
    manager.set_gamma_capabilities(vec![(OutputId(2), 16)]);
    manager.register_gamma_control(Some(OutputId(2)), 5);
    manager.track_gamma_read(OutputId(2), 44);
    assert_eq!(manager.unregister_gamma_control(OutputId(2), 6), None);
    assert_eq!(manager.unregister_gamma_control(OutputId(2), 5), Some(Some(44)));
    assert_eq!(manager.take_gamma_changes(), vec![(OutputId(2), None)]);
    assert!(!manager.reject_gamma_data(OutputId(2), 5));
    let failed = manager.gamma_control_failed(OutputId(2));
    assert_eq!(failed.resource, None);
}

#[test]
fn gamma_payloads_are_read_in_bounded_chunks() {
    let mut reader = GammaPayload::new(6);
    assert_eq!(reader.next_read_len(), Some(7));
    assert_eq!(reader.accept(GammaChunk::Data(vec![1, 0, 2]), ByteOrder::LittleEndian), GammaRead::Continue);
    assert_eq!(reader.next_read_len(), Some(4));
    assert_eq!(reader.accept(GammaChunk::WouldBlock, ByteOrder::LittleEndian), GammaRead::Pending);
    assert_eq!(
        reader.accept(GammaChunk::EndOfFile, ByteOrder::LittleEndian),
        GammaRead::Truncated { received: 3, expected: 6 }
    );
    assert_eq!(reader.accept(GammaChunk::Data(vec![0, 3, 0]), ByteOrder::LittleEndian), GammaRead::Continue);
    assert_eq!(
        reader.accept(GammaChunk::EndOfFile, ByteOrder::LittleEndian),
        GammaRead::Complete(vec![1, 2, 3])
    );
    assert_eq!(reader.accept(GammaChunk::Data(vec![9]), ByteOrder::LittleEndian), GammaRead::Continue);
    assert_eq!(reader.next_read_len(), None);
    assert_eq!(gamma_table(&vec![1, 2, 3], ByteOrder::BigEndian), vec![258]);
}

#[test]
fn a_second_reconcile_has_nothing_to_do() {
    let mut controller = GammaController::new();
    let scanouts = vec![scanout(10, 1), scanout(20, 2), scanout(30, 3)];
    reconcile(&mut controller, &scanouts, &[10, 30], true);
    let capabilities = controller.capabilities();
    assert!(controller.begin_reconcile(&scanouts, false).is_none());
    assert_eq!(controller.capabilities(), capabilities);
    assert_eq!(controller.reconcile_scanout(scanout(20, 2), false), ScanoutGamma::Unsupported);
}

#[test]
fn a_failed_probe_leaves_the_output_unsupported() {
    let mut controller = GammaController::new();
    reconcile(&mut controller, &vec![scanout(10, 1)], &[10], false);
    controller.record_probe(scanout(10, 1), None, None, order());
    assert!(controller.capabilities().is_empty());
    assert!(controller.topology_matches(&vec![scanout(10, 1)]));
    assert_eq!(controller.reconcile_scanout(scanout(10, 1), false), ScanoutGamma::Unsupported);
}

#[test]
fn the_byte_order_follows_how_one_reads() {
    assert_eq!(byte_order_of_probe(1), ByteOrder::LittleEndian);
    assert_eq!(byte_order_of_probe(256), ByteOrder::BigEndian);
}

#[test]
fn reconcile_restores_gone_outputs_and_probes_new_ones() {
    let mut controller = GammaController::new();
    let restored = RefCell::new(Vec::new());
    let probed = RefCell::new(Vec::new());
    let scanouts = vec![scanout(10, 1), scanout(20, 2)];
    let reconciled = controller.reconcile_if_needed(
        &scanouts,
        false,
        order(),
        |output: OutputId, _state: GammaOutput| restored.borrow_mut().push(output),
        |scanout: Scanout| {
            probed.borrow_mut().push(scanout.output);
            (scanout.output.0 == 10).then(|| (properties(256), None))
        },
    );
    let reconciled = reconciled.expect("new outputs");
    assert_eq!(reconciled.capabilities, vec![(OutputId(10), 256)]);
    assert!(reconciled.restored.is_empty());
    assert_eq!(*probed.borrow(), vec![OutputId(10), OutputId(20)]);
    assert!(restored.borrow().is_empty());

    let again = controller.reconcile_if_needed(
        &scanouts,
        false,
        order(),
        |output: OutputId, _state: GammaOutput| restored.borrow_mut().push(output),
        |scanout: Scanout| {
            probed.borrow_mut().push(scanout.output);
            None
        },
    );
    assert!(again.is_none());
    assert_eq!(probed.borrow().len(), 2);

    let moved = vec![scanout(20, 2), scanout(30, 1)];
    let reconciled = controller.reconcile_if_needed(
        &moved,
        false,
        order(),
        |output: OutputId, _state: GammaOutput| restored.borrow_mut().push(output),
        |scanout: Scanout| {
            probed.borrow_mut().push(scanout.output);
            Some((properties(1024), None))
        },
    );
    let reconciled = reconciled.expect("topology changed");
    assert_eq!(reconciled.capabilities, vec![(OutputId(30), 1024)]);
    assert_eq!(reconciled.restored.len(), 1);
    assert_eq!(reconciled.restored[0].0, OutputId(10));
    assert_eq!(reconciled.restored[0].1.crtc, 1);
    assert_eq!(*restored.borrow(), vec![OutputId(10)]);
    assert_eq!(*probed.borrow(), vec![OutputId(10), OutputId(20), OutputId(30)]);
}

#[test]
fn a_moved_output_is_restored_before_its_new_crtc_is_probed() {
    let mut controller = GammaController::new();
    reconcile(&mut controller, &vec![scanout(10, 1)], &[10], false);
    let events = RefCell::new(Vec::new());
    let reconciled = controller
        .reconcile_if_needed(
            &vec![scanout(10, 5)],
            false,
            order(),
            |output: OutputId, state: GammaOutput| events.borrow_mut().push(("restore", output, state.crtc)),
            |scanout: Scanout| {
                events.borrow_mut().push(("probe", scanout.output, scanout.crtc));
                Some((properties(512), None))
            },
        )
        .expect("crtc changed");
    assert_eq!(*events.borrow(), vec![("restore", OutputId(10), 1), ("probe", OutputId(10), 5)]);
    assert_eq!(reconciled.capabilities, vec![(OutputId(10), 512)]);
    assert_eq!(reconciled.restored.len(), 1);
}

#[test]
fn owned_outputs_are_listed_by_increasing_identifier() {
    let mut controller = GammaController::new();
    let scanouts = vec![scanout(30, 3), scanout(10, 1), scanout(20, 2)];
    reconcile(&mut controller, &scanouts, &[10, 20, 30], false);
    reconcile(&mut controller, &scanouts, &[10, 20, 30], true);
    assert_eq!(controller.capabilities(), vec![(OutputId(10), 256), (OutputId(20), 256), (OutputId(30), 256)]);
    assert_eq!(controller.dirty_outputs(), vec![OutputId(10), OutputId(20), OutputId(30)]);
    let taken: Vec<OutputId> = controller.take_outputs().into_iter().map(|(output, _)| output).collect();
    assert_eq!(taken, vec![OutputId(10), OutputId(20), OutputId(30)]);
}
