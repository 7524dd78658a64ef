//! Ownership of each CRTC's DRM gamma LUT, shared by the software dimmer and
//! Wayland gamma-control clients.
//!
//! The controller decides; the caller talks to the DRM device. Each
//! operation names the blob to install or the output to probe, and the caller
//! reports back what the device answered.

use vstd::prelude::*;

use crate::gamma_lut::{
    compose_drm_lut, decode_drm_lut, linear_ramp, spec_compose_drm_lut, spec_decode_drm_lut,
    spec_linear_ramp, ByteOrder, SoftwareDimmingRequest, MAX_GAMMA_LUT_ENTRIES,
};
use crate::gamma_protocol::{capability_entries, ramp_view, visited, RampTable};
use crate::topology::OutputId;
use crate::vec_map::{keys_distinct, keys_increasing, lemma_seq_map_index, lemma_seq_map_push, seq_map, sorted_by_key, VecMap};

verus! {

/// An output as it is scanned out: its identifier and the CRTC driving it.
#[derive(Clone, Copy, Debug, PartialEq, Eq, Structural)]
pub struct Scanout {
    pub output: OutputId,
    pub crtc: u32,
}

/// The DRM side of one output whose gamma LUT the controller owns.
#[derive(Clone, Copy, Debug, PartialEq, Eq, Structural)]
pub struct GammaOutput {
    pub crtc: u32,
    /// The CRTC's `GAMMA_LUT` property.
    pub property: u32,
    /// Entries per channel.
    pub size: u32,
    /// The blob installed before the controller took over (0 for none).
    pub inherited_blob: u64,
    /// The blob the controller created and installed, if any.
    pub installed_blob: Option<u64>,
    /// The LUT must be recomputed and installed.
    pub dirty: bool,
}

impl GammaOutput {
    /// Whether this state still belongs to the CRTC driving `scanout`.
    pub fn matches(&self, scanout: &Scanout) -> (matches: bool)
        ensures
            matches == (self.crtc == scanout.crtc),
    {
        self.crtc == scanout.crtc
    }
}

/// One owned output: its DRM state, the ramp it had before, and the ramp a
/// Wayland client set on it.
#[verifier::ext_equal]
pub struct GammaOutputView {
    pub state: GammaOutput,
    pub inherited_ramp: Option<Seq<u16>>,
    pub external_ramp: Option<Seq<u16>>,
}

#[verifier::ext_equal]
pub struct GammaControllerView {
    /// Outputs whose gamma LUT the controller owns.
    pub outputs: Map<u64, GammaOutputView>,
    /// Outputs found without a usable gamma LUT, with the CRTC probed.
    pub unsupported: Map<u64, u32>,
    /// Software dimming level of each output, in percent.
    pub internal_levels: Map<u64, u8>,
}

pub struct GammaController {
    states: VecMap<u64, GammaOutput>,
    inherited_ramps: RampTable,
    external_ramps: RampTable,
    unsupported: VecMap<u64, u32>,
    internal_levels: VecMap<u64, u8>,
}

impl View for GammaController {
    type V = GammaControllerView;

    closed spec fn view(&self) -> GammaControllerView {
        GammaControllerView {
            outputs: Map::new(
                |k: u64| self.states@.contains_key(k),
                |k: u64| GammaOutputView {
                    state: self.states@[k],
                    inherited_ramp: self.inherited_ramps@[k],
                    external_ramp: self.external_ramps@[k],
                },
            ),
            unsupported: self.unsupported@,
            internal_levels: self.internal_levels@,
        }
    }
}

/// Whether some scanout shows the output `raw`.
pub open spec fn scanned_out(scanouts: Seq<Scanout>, raw: u64) -> bool {
    exists|i: int| 0 <= i < scanouts.len() && #[trigger] scanouts[i].output.0 == raw
}

/// Whether the controller already knows `scanout` as it is: owned on the
/// same CRTC, or found unsupported on the same CRTC.
pub open spec fn scanout_known(v: GammaControllerView, scanout: Scanout) -> bool {
    ||| v.outputs.contains_key(scanout.output.0) && v.outputs[scanout.output.0].state.crtc == scanout.crtc
    ||| v.unsupported.contains_key(scanout.output.0) && v.unsupported[scanout.output.0] == scanout.crtc
}

/// Whether the scanouts are exactly the outputs the controller knows, on the
/// same CRTCs.
pub open spec fn spec_topology_matches(v: GammaControllerView, scanouts: Seq<Scanout>) -> bool {
    &&& v.outputs.dom().len() + v.unsupported.dom().len() == scanouts.len()
    &&& forall|i: int| 0 <= i < scanouts.len() ==> scanout_known(v, #[trigger] scanouts[i])
}

/// The software dimming level of an output, in percent; full brightness
/// unless set.
pub open spec fn spec_internal_level(v: GammaControllerView, output: OutputId) -> u8 {
    if v.internal_levels.contains_key(output.0) && v.internal_levels[output.0] < 100 {
        v.internal_levels[output.0]
    } else {
        100
    }
}

/// Entries of a list of owned outputs, keyed by raw identifier.
pub open spec fn output_entries(outputs: Seq<(OutputId, GammaOutput)>) -> Seq<(u64, GammaOutput)> {
    outputs.map_values(|entry: (OutputId, GammaOutput)| (entry.0.0, entry.1))
}

/// The table size of each entry of owned outputs.
pub open spec fn size_entries(entries: Seq<(u64, GammaOutput)>) -> Seq<(u64, u32)> {
    entries.map_values(|entry: (u64, GammaOutput)| (entry.0, entry.1.size))
}

/// The gamma table size of every owned output.
pub open spec fn spec_capabilities(v: GammaControllerView) -> Map<u64, u32> {
    Map::new(|k: u64| v.outputs.contains_key(k), |k: u64| v.outputs[k].state.size)
}

/// What software dimming reports about an output.
#[derive(Clone, Copy, Debug, PartialEq, Eq, Structural)]
pub struct SoftwareDimmingState {
    pub output: OutputId,
    pub level_percent: u8,
    pub supported: bool,
}

impl GammaController {
    pub closed spec fn wf(&self) -> bool {
        &&& self.states.wf()
        &&& self.inherited_ramps.wf()
        &&& self.external_ramps.wf()
        &&& self.unsupported.wf()
        &&& self.internal_levels.wf()
        &&& forall|k: u64| #[trigger] self.states@.contains_key(k) ==> self.inherited_ramps@.contains_key(k)
        &&& forall|k: u64| #[trigger] self.states@.contains_key(k) ==> self.external_ramps@.contains_key(k)
        &&& forall|k: u64| #[trigger] self.states@.contains_key(k) && self.inherited_ramps@[k] is Some
            ==> self.inherited_ramps@[k]->0.len() == 3 * self.states@[k].size
        &&& forall|k: u64| #[trigger] self.states@.contains_key(k) ==> !self.unsupported@.contains_key(k)
    }

    /// An output is never both owned and unsupported.
    pub proof fn lemma_wf_outputs_apart(&self)
        requires
            self.wf(),
        ensures
            self@.outputs.dom().disjoint(self@.unsupported.dom()),
    {
    }

    pub fn new() -> (controller: GammaController)
        ensures
            controller.wf(),
            controller@.outputs == Map::<u64, GammaOutputView>::empty(),
            controller@.unsupported == Map::<u64, u32>::empty(),
            controller@.internal_levels == Map::<u64, u8>::empty(),
    {
        let controller = GammaController {
            states: VecMap::new(),
            inherited_ramps: RampTable::new(),
            external_ramps: RampTable::new(),
            unsupported: VecMap::new(),
            internal_levels: VecMap::new(),
        };
        assert(controller@.outputs =~= Map::<u64, GammaOutputView>::empty());
        controller
    }

    proof fn lemma_outputs_domain(&self)
        requires
            self.wf(),
        ensures
            self@.outputs.dom() == self.states@.dom(),
    {
        assert(self@.outputs.dom() =~= self.states@.dom());
    }

    /// Whether the scanouts are exactly the outputs already known, on the
    /// same CRTCs, so that nothing needs probing.
    pub fn topology_matches(&self, scanouts: &Vec<Scanout>) -> (matches: bool)
        requires
            self.wf(),
        ensures
            matches == spec_topology_matches(self@, scanouts@),
    {
        proof {
            self.lemma_outputs_domain();
        }
        let owned = self.states.len();
        let unsupported = self.unsupported.len();
        if unsupported > scanouts.len() || owned != scanouts.len() - unsupported {
            return false;
        }
        let mut i: usize = 0;
        while i < scanouts.len()
            invariant
                self.wf(),
                i <= scanouts@.len(),
                forall|j: int| 0 <= j < i ==> scanout_known(self@, #[trigger] scanouts@[j]),
            decreases scanouts@.len() - i,
        {
            let scanout = scanouts[i];
            let owned_here = match self.states.get(&scanout.output.0) {
                Some(state) => state.crtc == scanout.crtc,
                None => false,
            };
            let unsupported_here = match self.unsupported.get(&scanout.output.0) {
                Some(crtc) => crtc == scanout.crtc,
                None => false,
            };
            if !owned_here && !unsupported_here {
                assert(!scanout_known(self@, scanouts@[i as int]));
                return false;
            }
            i = i + 1;
        }
        true
    }

    /// The software dimming level of an output, in percent.
    pub fn internal_level(&self, output: OutputId) -> (level: u8)
        requires
            self.wf(),
        ensures
            level == spec_internal_level(self@, output),
            level <= 100,
    {
        match self.internal_levels.get(&output.0) {
            Some(level) if level < 100 => level,
            _ => 100,
        }
    }

    /// What software dimming reports for an output: its level, and whether
    /// the controller owns its gamma LUT and the last update did not fail.
    pub fn software_state(&self, output: OutputId, failed: bool) -> (state: SoftwareDimmingState)
        requires
            self.wf(),
        ensures
            state == (SoftwareDimmingState {
                output,
                level_percent: spec_internal_level(self@, output),
                supported: self@.outputs.contains_key(output.0) && !failed,
            }),
    {
        SoftwareDimmingState {
            output,
            level_percent: self.internal_level(output),
            supported: self.states.contains_key(&output.0) && !failed,
        }
    }

    /// The gamma table size of every owned output, each output once.
    pub fn capabilities(&self) -> (capabilities: Vec<(OutputId, u32)>)
        requires
            self.wf(),
        ensures
            keys_distinct(capability_entries(capabilities@)),
            keys_increasing(capability_entries(capabilities@)),
            seq_map(capability_entries(capabilities@)) == spec_capabilities(self@),
    {
        let listed = self.states.entries();
        proof {
            self.states.lemma_view();
        }
        let entries = sorted_by_key(&listed);
        let mut capabilities: Vec<(OutputId, u32)> = Vec::new();
        let mut i: usize = 0;
        while i < entries.len()
            invariant
                self.wf(),
                keys_increasing(entries@),
                keys_distinct(entries@),
                seq_map(entries@) == self.states@,
                i <= entries@.len(),
                capability_entries(capabilities@) == size_entries(entries@.subrange(0, i as int)),
            decreases entries@.len() - i,
        {
            let (raw, state) = entries[i];
            let ghost before = capabilities@;
            capabilities.push((OutputId(raw), state.size));
            proof {
                assert(capabilities@ == before.push((OutputId(raw), state.size)));
                assert(capability_entries(before).len() == before.len());
                assert(size_entries(entries@.subrange(0, i as int)).len() == i);
                assert(before.len() == i);
                assert(capability_entries(capabilities@).len() == i + 1);
                assert(size_entries(entries@.subrange(0, i + 1)).len() == i + 1);
                assert(capability_entries(capabilities@)[i as int] == (raw, state.size));
                assert(size_entries(entries@.subrange(0, i + 1))[i as int] == (raw, state.size));
                assert forall|j: int| 0 <= j < i implies capability_entries(capabilities@)[j] == size_entries(entries@.subrange(0, i + 1))[j] by {
                    assert(capability_entries(capabilities@)[j] == capability_entries(before)[j]);
                    assert(size_entries(entries@.subrange(0, i + 1))[j] == size_entries(entries@.subrange(0, i as int))[j]);
                }
            }
            i = i + 1;
            assert(capability_entries(capabilities@) =~= size_entries(entries@.subrange(0, i as int)));
        }
        proof {
            let sizes = size_entries(entries@);
            assert(entries@.subrange(0, entries@.len() as int) =~= entries@);
            assert(capability_entries(capabilities@) =~= sizes);
            assert forall|a: int, b: int| 0 <= a < b < sizes.len() implies #[trigger] sizes[a].0 < #[trigger] sizes[b].0 by {
                assert(entries@[a].0 < entries@[b].0);
            }
            assert forall|a: int, b: int| 0 <= a < sizes.len() && 0 <= b < sizes.len() && a != b
                implies #[trigger] sizes[a].0 != #[trigger] sizes[b].0 by {
                assert(entries@[a].0 != entries@[b].0);
            }
            assert forall|k: u64| #[trigger] seq_map(sizes).contains_key(k) implies spec_capabilities(self@).contains_key(k) by {
                let j = choose|j: int| 0 <= j < sizes.len() && #[trigger] sizes[j].0 == k;
                lemma_seq_map_index(entries@, j);
            }
            assert forall|k: u64| #[trigger] spec_capabilities(self@).contains_key(k) implies seq_map(sizes).contains_key(k) by {
                let j = choose|j: int| 0 <= j < entries@.len() && #[trigger] entries@[j].0 == k;
                assert(sizes[j].0 == k);
            }
            assert forall|k: u64| #[trigger] seq_map(sizes).contains_key(k) implies seq_map(sizes)[k]
                == spec_capabilities(self@)[k] by {
                let j = choose|j: int| 0 <= j < sizes.len() && #[trigger] sizes[j].0 == k;
                lemma_seq_map_index(sizes, j);
                lemma_seq_map_index(entries@, j);
            }
            assert(seq_map(sizes).dom() =~= spec_capabilities(self@).dom());
            assert(seq_map(sizes) =~= spec_capabilities(self@));
        }
        capabilities
    }
}


/// Whether a reconcile with the scanouts has nothing to do: no reapply is
/// forced and the controller already knows exactly those scanouts.
pub open spec fn spec_reconcile_skips(v: GammaControllerView, scanouts: Seq<Scanout>, force_reapply: bool) -> bool {
    !force_reapply && spec_topology_matches(v, scanouts)
}

/// The owned outputs that no scanout shows any more.
pub open spec fn spec_removed_outputs(v: GammaControllerView, scanouts: Seq<Scanout>) -> Map<u64, GammaOutput> {
    Map::new(|k: u64| v.outputs.contains_key(k) && !scanned_out(scanouts, k), |k: u64| v.outputs[k].state)
}

/// The owned outputs that some scanout still shows.
pub open spec fn spec_kept_outputs(v: GammaControllerView, scanouts: Seq<Scanout>) -> Map<u64, GammaOutputView> {
    Map::new(|k: u64| v.outputs.contains_key(k) && scanned_out(scanouts, k), |k: u64| v.outputs[k])
}

/// The unsupported outputs that some scanout still shows.
pub open spec fn spec_kept_unsupported(v: GammaControllerView, scanouts: Seq<Scanout>) -> Map<u64, u32> {
    Map::new(|k: u64| v.unsupported.contains_key(k) && scanned_out(scanouts, k), |k: u64| v.unsupported[k])
}

/// The view once a reconcile has started: owned outputs that are gone are
/// forgotten, and so are unsupported ones (all of them when forced).
pub open spec fn spec_begin_reconcile(v: GammaControllerView, scanouts: Seq<Scanout>, force_reapply: bool) -> GammaControllerView {
    GammaControllerView {
        outputs: spec_kept_outputs(v, scanouts),
        unsupported: if force_reapply {
            Map::empty()
        } else {
            spec_kept_unsupported(v, scanouts)
        },
        internal_levels: v.internal_levels,
    }
}

/// How one scanout is reconciled, and the view afterwards: a retained
/// output becomes dirty when forced; a new or moved one is forgotten until
/// probed.
pub open spec fn spec_reconcile_scanout(v: GammaControllerView, scanout: Scanout, force_reapply: bool) -> (ScanoutGamma, GammaControllerView) {
    let raw = scanout.output.0;
    if v.outputs.contains_key(raw) && v.outputs[raw].state.crtc == scanout.crtc {
        (
            ScanoutGamma::Retained,
            if force_reapply {
                with_state(v, raw, GammaOutput { dirty: true, ..v.outputs[raw].state })
            } else {
                v
            },
        )
    } else if v.unsupported.contains_key(raw) && v.unsupported[raw] == scanout.crtc {
        (ScanoutGamma::Unsupported, v)
    } else {
        (
            ScanoutGamma::Probe {
                previous: if v.outputs.contains_key(raw) { Some(v.outputs[raw].state) } else { None },
            },
            GammaControllerView { outputs: v.outputs.remove(raw), ..v },
        )
    }
}

/// The view once a probe of `scanout` is recorded: an owned output, or an
/// unsupported one on the scanout's CRTC.
pub open spec fn spec_record_probe(v: GammaControllerView, scanout: Scanout, probed: Option<GammaOutputView>) -> GammaControllerView {
    match probed {
        Some(output) => GammaControllerView {
            outputs: v.outputs.insert(scanout.output.0, output),
            unsupported: v.unsupported.remove(scanout.output.0),
            ..v
        },
        None => GammaControllerView {
            outputs: v.outputs.remove(scanout.output.0),
            unsupported: v.unsupported.insert(scanout.output.0, scanout.crtc),
            ..v
        },
    }
}

/// The view with the DRM state of owned output `raw` replaced.
pub open spec fn with_state(v: GammaControllerView, raw: u64, state: GammaOutput) -> GammaControllerView {
    GammaControllerView {
        outputs: v.outputs.insert(raw, GammaOutputView { state, ..v.outputs[raw] }),
        ..v
    }
}

/// How one scanout is reconciled.
#[derive(Clone, Copy, Debug, PartialEq, Eq, Structural)]
pub enum ScanoutGamma {
    /// Still owned on the same CRTC.
    Retained,
    /// Already known to lack a usable gamma LUT on the same CRTC.
    Unsupported,
    /// New or moved: restore the previous state, if any, then probe the CRTC.
    Probe { previous: Option<GammaOutput> },
}

/// Whether some scanout shows the output `raw`.
pub fn scanouts_include(scanouts: &Vec<Scanout>, raw: u64) -> (included: bool)
    ensures
        included == scanned_out(scanouts@, raw),
{
    let mut i: usize = 0;
    while i < scanouts.len()
        invariant
            i <= scanouts@.len(),
            forall|j: int| 0 <= j < i ==> #[trigger] scanouts@[j].output.0 != raw,
        decreases scanouts@.len() - i,
    {
        if scanouts[i].output.0 == raw {
            return true;
        }
        i = i + 1;
    }
    false
}

impl GammaController {
    /// Starts reconciling with the scanouts. `None` when nothing changed and
    /// no reapply is forced. Otherwise forgets unsupported outputs that are
    /// gone (all of them when forced) and hands back the owned outputs that
    /// are gone, for the caller to restore.
    pub fn begin_reconcile(&mut self, scanouts: &Vec<Scanout>, force_reapply: bool) -> (removed: Option<Vec<(OutputId, GammaOutput)>>)
        requires
            old(self).wf(),
        ensures
            final(self).wf(),
            (removed is None) == spec_reconcile_skips(old(self)@, scanouts@, force_reapply),
            match removed {
                None => final(self)@ == old(self)@,
                Some(removed) => {
                    &&& final(self)@ == spec_begin_reconcile(old(self)@, scanouts@, force_reapply)
                    &&& keys_distinct(output_entries(removed@))
                    &&& seq_map(output_entries(removed@)) == spec_removed_outputs(old(self)@, scanouts@)
                },
            },
    {
        if !force_reapply && self.topology_matches(scanouts) {
            return None;
        }
        let ghost start = self@;
        let ghost start_states = self.states@;
        let keep = |raw: u64, crtc: u32| -> (keep: bool)
            ensures
                keep == scanned_out(scanouts@, raw),
            { scanouts_include(scanouts, raw) };
        self.unsupported.retain(keep);
        if force_reapply {
            self.unsupported.clear();
        }
        proof {
            if !force_reapply {
                assert(self.unsupported@ =~= spec_kept_unsupported(start, scanouts@));
            }
        }
        let entries = self.states.entries();
        proof {
            self.states.lemma_view();
        }
        let mut removed: Vec<(OutputId, GammaOutput)> = Vec::new();
        let mut i: usize = 0;
        while i < entries.len()
            invariant
                self.wf(),
                keys_distinct(entries@),
                seq_map(entries@) == start_states,
                i <= entries@.len(),
                self.inherited_ramps@ == old(self).inherited_ramps@,
                self.external_ramps@ == old(self).external_ramps@,
                self.unsupported@ == (if force_reapply {
                    Map::<u64, u32>::empty()
                } else {
                    spec_kept_unsupported(start, scanouts@)
                }),
                self.internal_levels@ == start.internal_levels,
                forall|k: u64| #[trigger] self.states@.contains_key(k) == (start_states.contains_key(k)
                    && !(visited(entries@, i as int, k) && !scanned_out(scanouts@, k))),
                forall|k: u64| #[trigger] self.states@.contains_key(k) ==> self.states@[k] == start_states[k],
                keys_distinct(output_entries(removed@)),
                seq_map(output_entries(removed@)) == Map::new(
                    |k: u64| start_states.contains_key(k) && visited(entries@, i as int, k) && !scanned_out(scanouts@, k),
                    |k: u64| start_states[k],
                ),
            decreases entries@.len() - i,
        {
            let (raw, state) = entries[i];
            proof {
                lemma_seq_map_index(entries@, i as int);
                assert(!visited(entries@, i as int, raw)) by {
                    if visited(entries@, i as int, raw) {
                        let j = choose|j: int| 0 <= j < i && #[trigger] entries@[j].0 == raw;
                        assert(entries@[j].0 != entries@[i as int].0);
                    }
                }
                assert forall|k: u64| visited(entries@, i + 1, k) == (visited(entries@, i as int, k) || k == raw) by {
                    if k == raw {
                        assert(entries@[i as int].0 == k);
                    }
                    if visited(entries@, i + 1, k) && k != raw {
                        let j = choose|j: int| 0 <= j < i + 1 && #[trigger] entries@[j].0 == k;
                        assert(0 <= j < i);
                    }
                }
            }
            if !scanouts_include(scanouts, raw) {
                let ghost before = removed@;
                self.states.remove(&raw);
                removed.push((OutputId(raw), state));
                proof {
                    let prior = Map::new(
                        |k: u64| start_states.contains_key(k) && visited(entries@, i as int, k) && !scanned_out(scanouts@, k),
                        |k: u64| start_states[k],
                    );
                    assert(!prior.contains_key(raw));
                    lemma_seq_map_push(output_entries(before), raw, state);
                    assert(output_entries(removed@) =~= output_entries(before).push((raw, state)));
                    assert(seq_map(output_entries(removed@)) =~= Map::new(
                        |k: u64| start_states.contains_key(k) && visited(entries@, i + 1, k) && !scanned_out(scanouts@, k),
                        |k: u64| start_states[k],
                    ));
                }
            } else {
                proof {
                    assert(seq_map(output_entries(removed@)) =~= Map::new(
                        |k: u64| start_states.contains_key(k) && visited(entries@, i + 1, k) && !scanned_out(scanouts@, k),
                        |k: u64| start_states[k],
                    ));
                }
            }
            i = i + 1;
        }
        proof {
            assert forall|k: u64| start_states.contains_key(k) implies visited(entries@, entries@.len() as int, k) by {
                let j = choose|j: int| 0 <= j < entries@.len() && #[trigger] entries@[j].0 == k;
                assert(entries@[j].0 == k);
            }
            assert(self@.outputs =~= spec_kept_outputs(start, scanouts@));
            assert(seq_map(output_entries(removed@)) =~= spec_removed_outputs(start, scanouts@));
        }
        Some(removed)
    }

    /// Reconciles one scanout: keeps a retained output (dirty when a
    /// reapply is forced), skips a known unsupported one, and otherwise
    /// forgets any previous state so that the caller restores it and probes.
    pub fn reconcile_scanout(&mut self, scanout: Scanout, force_reapply: bool) -> (step: ScanoutGamma)
        requires
            old(self).wf(),
        ensures
            final(self).wf(),
            (step, final(self)@) == spec_reconcile_scanout(old(self)@, scanout, force_reapply),
    {
        let raw = scanout.output.0;
        let ghost v = self@;
        match self.states.get(&raw) {
            Some(state) => {
                if state.matches(&scanout) {
                    if force_reapply {
                        self.states.insert(raw, GammaOutput { dirty: true, ..state });
                        proof {
                            assert(self@.outputs =~= with_state(v, raw, GammaOutput { dirty: true, ..state }).outputs);
                        }
                    }
                    return ScanoutGamma::Retained;
                }
            },
            None => {},
        }
        match self.unsupported.get(&raw) {
            Some(crtc) => {
                if crtc == scanout.crtc {
                    return ScanoutGamma::Unsupported;
                }
            },
            None => {},
        }
        let previous = self.states.remove(&raw);
        proof {
            assert(self@.outputs =~= v.outputs.remove(raw));
        }
        ScanoutGamma::Probe { previous }
    }
}


/// The kind of value a DRM property holds, as far as probing cares.
#[derive(Clone, Copy, Debug, PartialEq, Eq, Structural)]
pub enum PropertyKind {
    Blob,
    UnsignedRange,
    Other,
}

/// One property of a CRTC: its handle, current value, name bytes and kind.
#[derive(Debug)]
pub struct CrtcProperty {
    pub handle: u32,
    pub value: u64,
    pub name: Vec<u8>,
    pub kind: PropertyKind,
}

/// The gamma LUT properties of a CRTC.
#[derive(Clone, Copy, Debug, PartialEq, Eq, Structural)]
pub struct GammaProperties {
    /// The `GAMMA_LUT` property.
    pub property: u32,
    /// The blob it held when probed (0 for none).
    pub inherited_blob: u64,
    /// Entries per channel, from `GAMMA_LUT_SIZE`.
    pub size: u32,
}

/// Why a CRTC has no usable gamma LUT.
#[derive(Clone, Copy, Debug, PartialEq, Eq, Structural)]
pub enum GammaProbeError {
    MissingGammaLut,
    MissingGammaLutSize,
    /// `GAMMA_LUT_SIZE` is outside `2..=65536`.
    InvalidSize(u64),
}

pub open spec fn gamma_lut_name() -> Seq<u8> {
    seq![71u8, 65u8, 77u8, 77u8, 65u8, 95u8, 76u8, 85u8, 84u8]
}

pub open spec fn gamma_lut_size_name() -> Seq<u8> {
    gamma_lut_name() + seq![95u8, 83u8, 73u8, 90u8, 69u8]
}

/// The handle and value of the last blob property named `GAMMA_LUT`.
pub open spec fn last_gamma_lut(properties: Seq<CrtcProperty>) -> Option<(u32, u64)>
    decreases properties.len(),
{
    if properties.len() == 0 {
        None
    } else {
        let last = properties.last();
        if last.name@ == gamma_lut_name() && last.kind is Blob {
            Some((last.handle, last.value))
        } else {
            last_gamma_lut(properties.drop_last())
        }
    }
}

/// The value of the last range property named `GAMMA_LUT_SIZE`.
pub open spec fn last_gamma_lut_size(properties: Seq<CrtcProperty>) -> Option<u64>
    decreases properties.len(),
{
    if properties.len() == 0 {
        None
    } else {
        let last = properties.last();
        if last.name@ == gamma_lut_size_name() && last.kind is UnsignedRange {
            Some(last.value)
        } else {
            last_gamma_lut_size(properties.drop_last())
        }
    }
}

pub open spec fn spec_select_gamma_properties(properties: Seq<CrtcProperty>) -> Result<GammaProperties, GammaProbeError> {
    match last_gamma_lut(properties) {
        None => Err(GammaProbeError::MissingGammaLut),
        Some((property, inherited_blob)) => match last_gamma_lut_size(properties) {
            None => Err(GammaProbeError::MissingGammaLutSize),
            Some(size) => if 2 <= size <= MAX_GAMMA_LUT_ENTRIES {
                Ok(GammaProperties { property, inherited_blob, size: size as u32 })
            } else {
                Err(GammaProbeError::InvalidSize(size))
            },
        },
    }
}

fn is_gamma_lut_name(name: &Vec<u8>) -> (matches: bool)
    ensures
        matches == (name@ == gamma_lut_name()),
{
    let matches = name.len() == 9 && name[0] == 71 && name[1] == 65 && name[2] == 77 && name[3] == 77
        && name[4] == 65 && name[5] == 95 && name[6] == 76 && name[7] == 85 && name[8] == 84;
    proof {
        if matches {
            assert(name@ =~= gamma_lut_name());
        }
    }
    matches
}

fn is_gamma_lut_size_name(name: &Vec<u8>) -> (matches: bool)
    ensures
        matches == (name@ == gamma_lut_size_name()),
{
    let matches = name.len() == 14 && name[0] == 71 && name[1] == 65 && name[2] == 77 && name[3] == 77
        && name[4] == 65 && name[5] == 95 && name[6] == 76 && name[7] == 85 && name[8] == 84
        && name[9] == 95 && name[10] == 83 && name[11] == 73 && name[12] == 90 && name[13] == 69;
    proof {
        let expected = gamma_lut_size_name();
        assert(expected.len() == 14);
        if matches {
            assert(name@ =~= expected);
        }
        if name@ == expected {
            assert(expected[9] == 95u8);
        }
    }
    matches
}

/// Picks a CRTC's gamma LUT properties: the last blob property named
/// `GAMMA_LUT` and the last range property named `GAMMA_LUT_SIZE`, whose
/// value must lie in `2..=65536`.
pub fn select_gamma_properties(properties: &Vec<CrtcProperty>) -> (selected: Result<GammaProperties, GammaProbeError>)
    ensures
        selected == spec_select_gamma_properties(properties@),
{
    let mut lut: Option<(u32, u64)> = None;
    let mut lut_size: Option<u64> = None;
    let mut i: usize = 0;
    while i < properties.len()
        invariant
            i <= properties@.len(),
            lut == last_gamma_lut(properties@.subrange(0, i as int)),
            lut_size == last_gamma_lut_size(properties@.subrange(0, i as int)),
        decreases properties@.len() - i,
    {
        let property = &properties[i];
        if is_gamma_lut_name(&property.name) && property.kind == PropertyKind::Blob {
            lut = Some((property.handle, property.value));
        } else if is_gamma_lut_size_name(&property.name) && property.kind == PropertyKind::UnsignedRange {
            lut_size = Some(property.value);
        }
        proof {
            let prefix = properties@.subrange(0, i + 1);
            assert(prefix.drop_last() =~= properties@.subrange(0, i as int));
            assert(prefix.last() == properties@[i as int]);
            assert(gamma_lut_name() != gamma_lut_size_name()) by {
                assert(gamma_lut_name().len() != gamma_lut_size_name().len());
            }
        }
        i = i + 1;
    }
    proof {
        assert(properties@.subrange(0, properties@.len() as int) =~= properties@);
    }
    match lut {
        None => Err(GammaProbeError::MissingGammaLut),
        Some((property, inherited_blob)) => match lut_size {
            None => Err(GammaProbeError::MissingGammaLutSize),
            Some(size) => if 2 <= size && size <= MAX_GAMMA_LUT_ENTRIES as u64 {
                Ok(GammaProperties { property, inherited_blob, size: size as u32 })
            } else {
                Err(GammaProbeError::InvalidSize(size))
            },
        },
    }
}

impl GammaProperties {
    /// The blob to read as the inherited gamma LUT, if the CRTC had one.
    pub fn inherited_lut_blob(&self) -> (blob: Option<u64>)
        ensures
            blob == (if self.inherited_blob == 0 { None } else { Some(self.inherited_blob) }),
    {
        if self.inherited_blob == 0 {
            None
        } else {
            Some(self.inherited_blob)
        }
    }
}

/// The ramp an output had before the controller took over: the inherited
/// LUT decoded, when there was one and it could be read and decoded.
pub open spec fn spec_inherited_ramp(properties: GammaProperties, inherited_lut: Option<Seq<u8>>, order: ByteOrder) -> Option<Seq<u16>> {
    if properties.inherited_blob == 0 {
        None
    } else {
        match inherited_lut {
            Some(bytes) => spec_decode_drm_lut(bytes, properties.size as nat, order),
            None => None,
        }
    }
}

pub open spec fn lut_bytes_view(lut: Option<Vec<u8>>) -> Option<Seq<u8>> {
    match lut {
        Some(bytes) => Some(bytes@),
        None => None,
    }
}

pub open spec fn probed_output(scanout: Scanout, properties: GammaProperties, inherited_lut: Option<Seq<u8>>, order: ByteOrder) -> GammaOutputView {
    GammaOutputView {
        state: GammaOutput {
            crtc: scanout.crtc,
            property: properties.property,
            size: properties.size,
            inherited_blob: properties.inherited_blob,
            installed_blob: None,
            dirty: false,
        },
        inherited_ramp: spec_inherited_ramp(properties, inherited_lut, order),
        external_ramp: None,
    }
}

impl GammaController {
    /// Records the outcome of probing a scanout's CRTC: with its gamma
    /// properties the output becomes owned, keeping the inherited LUT as its
    /// base ramp; without, it is remembered as unsupported on that CRTC.
    pub fn record_probe(
        &mut self,
        scanout: Scanout,
        probed: Option<GammaProperties>,
        inherited_lut: Option<Vec<u8>>,
        order: ByteOrder,
    )
        requires
            old(self).wf(),
        ensures
            final(self).wf(),
            final(self)@ == spec_record_probe(old(self)@, scanout, match probed {
                Some(properties) => Some(probed_output(scanout, properties, lut_bytes_view(inherited_lut), order)),
                None => None,
            }),
    {
        let raw = scanout.output.0;
        let ghost v = self@;
        let ghost lut_view = lut_bytes_view(inherited_lut);
        match probed {
            Some(properties) => {
                let inherited_ramp = if properties.inherited_blob == 0 {
                    None
                } else {
                    match &inherited_lut {
                        Some(bytes) => decode_drm_lut(bytes.as_slice(), properties.size, order),
                        None => None,
                    }
                };
                self.unsupported.remove(&raw);
                let state = GammaOutput {
                    crtc: scanout.crtc,
                    property: properties.property,
                    size: properties.size,
                    inherited_blob: properties.inherited_blob,
                    installed_blob: None,
                    dirty: false,
                };
                self.states.insert(raw, state);
                self.inherited_ramps.insert(scanout.output, inherited_ramp);
                self.external_ramps.insert(scanout.output, None);
                proof {
                    assert(self@.outputs =~= v.outputs.insert(raw, probed_output(scanout, properties, lut_view, order)));
                }
            },
            None => {
                self.states.remove(&raw);
                self.unsupported.insert(raw, scanout.crtc);
                proof {
                    assert(self@.outputs =~= v.outputs.remove(raw));
                }
            },
        }
    }
}


/// A Wayland client's ramp staged on an owned output, which becomes dirty.
pub open spec fn stage_external(v: GammaControllerView, change: (u64, Option<Seq<u16>>)) -> GammaControllerView {
    if v.outputs.contains_key(change.0) {
        GammaControllerView {
            outputs: v.outputs.insert(change.0, GammaOutputView {
                state: GammaOutput { dirty: true, ..v.outputs[change.0].state },
                external_ramp: change.1,
                ..v.outputs[change.0]
            }),
            ..v
        }
    } else {
        v
    }
}

/// Client ramps staged in order.
pub open spec fn stage_all_external(v: GammaControllerView, changes: Seq<(u64, Option<Seq<u16>>)>) -> GammaControllerView
    decreases changes.len(),
{
    if changes.len() == 0 {
        v
    } else {
        stage_external(stage_all_external(v, changes.drop_last()), changes.last())
    }
}

/// A software dimming request staged: a new level, capped at 100 percent,
/// makes an owned output dirty.
pub open spec fn stage_request(v: GammaControllerView, request: SoftwareDimmingRequest) -> GammaControllerView {
    match request {
        SoftwareDimmingRequest::Read { .. } => v,
        SoftwareDimmingRequest::SetLevel { output, level_percent } => {
            let leveled = GammaControllerView {
                internal_levels: v.internal_levels.insert(output.0, if level_percent < 100 { level_percent } else { 100 }),
                ..v
            };
            if v.outputs.contains_key(output.0) {
                with_state(leveled, output.0, GammaOutput { dirty: true, ..v.outputs[output.0].state })
            } else {
                leveled
            }
        },
    }
}

/// Software dimming requests staged in order.
pub open spec fn stage_all_requests(v: GammaControllerView, requests: Seq<SoftwareDimmingRequest>) -> GammaControllerView
    decreases requests.len(),
{
    if requests.len() == 0 {
        v
    } else {
        stage_request(stage_all_requests(v, requests.drop_last()), requests.last())
    }
}

/// What to do with the DRM device to bring an output's gamma LUT up to date.
#[derive(Debug)]
pub enum GammaUpdate {
    /// Put the inherited blob back: no client ramp and full brightness.
    InstallInherited { crtc: u32, property: u32, blob: u64 },
    /// Create a blob holding `lut` and install it.
    CreateBlob { crtc: u32, property: u32, lut: Vec<u8> },
    /// The table size does not fit in memory.
    LengthOverflow,
    /// The client ramp does not hold three channels of the table size.
    WrongRampLength { entries: usize, expected: usize },
}

/// The outputs an update attempt failed on, and those whose client ramp was
/// dropped because of it.
pub struct GammaApplyOutcome {
    pub failed_external: Vec<OutputId>,
    pub failed_outputs: Vec<OutputId>,
}

impl GammaApplyOutcome {
    pub fn new() -> (outcome: GammaApplyOutcome)
        ensures
            outcome.failed_external@ == Seq::<OutputId>::empty(),
            outcome.failed_outputs@ == Seq::<OutputId>::empty(),
    {
        GammaApplyOutcome { failed_external: Vec::new(), failed_outputs: Vec::new() }
    }

    /// Whether updating `output` failed.
    pub fn failed(&self, output: OutputId) -> (failed: bool)
        ensures
            failed == self.failed_outputs@.contains(output),
    {
        let mut i: usize = 0;
        while i < self.failed_outputs.len()
            invariant
                i <= self.failed_outputs@.len(),
                forall|j: int| 0 <= j < i ==> self.failed_outputs@[j] != output,
            decreases self.failed_outputs@.len() - i,
        {
            if self.failed_outputs[i].0 == output.0 {
                assert(self.failed_outputs@[i as int] == output);
                return true;
            }
            i = i + 1;
        }
        false
    }
}

/// How a software dimming request is answered.
#[derive(Clone, Copy, Debug, PartialEq, Eq, Structural)]
pub enum SoftwareDimmingReply {
    /// The output's level, and whether it can be dimmed.
    Level { output: OutputId, level_percent: u8, supported: bool },
    /// A new level was taken.
    Accepted { output: OutputId, level_percent: u8 },
    /// The output does not expose a usable gamma LUT.
    Unavailable,
}

pub open spec fn spec_software_dimming_reply(request: SoftwareDimmingRequest, state: SoftwareDimmingState) -> SoftwareDimmingReply {
    match request {
        SoftwareDimmingRequest::Read { .. } => SoftwareDimmingReply::Level {
            output: state.output,
            level_percent: state.level_percent,
            supported: state.supported,
        },
        SoftwareDimmingRequest::SetLevel { .. } => if state.supported {
            SoftwareDimmingReply::Accepted { output: state.output, level_percent: state.level_percent }
        } else {
            SoftwareDimmingReply::Unavailable
        },
    }
}

/// The reply to a software dimming request: a read always reports the level
/// and whether the output is supported; a new level is accepted only on a
/// supported output.
pub fn software_dimming_reply(request: SoftwareDimmingRequest, state: SoftwareDimmingState) -> (reply: SoftwareDimmingReply)
    ensures
        reply == spec_software_dimming_reply(request, state),
{
    match request {
        SoftwareDimmingRequest::Read { .. } => SoftwareDimmingReply::Level {
            output: state.output,
            level_percent: state.level_percent,
            supported: state.supported,
        },
        SoftwareDimmingRequest::SetLevel { .. } => if state.supported {
            SoftwareDimmingReply::Accepted { output: state.output, level_percent: state.level_percent }
        } else {
            SoftwareDimmingReply::Unavailable
        },
    }
}

impl GammaController {
    /// Stages client ramps (for owned outputs only) and then software
    /// dimming levels, in order; every touched owned output becomes dirty.
    pub fn stage_changes(
        &mut self,
        external_changes: Vec<(OutputId, Option<Vec<u16>>)>,
        internal_requests: &Vec<SoftwareDimmingRequest>,
    )
        requires
            old(self).wf(),
        ensures
            final(self).wf(),
            final(self)@ == stage_all_requests(
                stage_all_external(old(self)@, crate::gamma_protocol::ramp_entries(external_changes@)),
                internal_requests@,
            ),
    {
        let ghost start = self@;
        let ghost all = crate::gamma_protocol::ramp_entries(external_changes@);
        let mut changes = external_changes;
        while changes.len() > 0
            invariant
                self.wf(),
                changes@.len() <= all.len(),
                crate::gamma_protocol::ramp_entries(changes@) == all.subrange(all.len() - changes@.len(), all.len() as int),
                self@ == stage_all_external(start, all.subrange(0, all.len() - changes@.len())),
            decreases changes@.len(),
        {
            let ghost done = all.len() - changes@.len();
            let ghost rest = changes@;
            let (output, ramp) = changes.remove(0);
            let ghost change = (output.0, ramp_view(ramp));
            proof {
                assert(crate::gamma_protocol::ramp_entries(rest)[0] == change);
                assert(all[done] == change);
                assert(crate::gamma_protocol::ramp_entries(changes@) =~= all.subrange(all.len() - changes@.len(), all.len() as int)) by {
                    assert forall|j: int| 0 <= j < changes@.len() implies crate::gamma_protocol::ramp_entries(changes@)[j]
                        == all[all.len() - changes@.len() + j] by {
                        assert(changes@[j] == rest[j + 1]);
                        assert(crate::gamma_protocol::ramp_entries(rest)[j + 1] == all[done + j + 1]);
                    }
                }
                assert(all.subrange(0, done + 1).drop_last() =~= all.subrange(0, done));
                assert(all.subrange(0, done + 1).last() == change);
            }
            let ghost v = self@;
            match self.states.get(&output.0) {
                Some(state) => {
                    self.states.insert(output.0, GammaOutput { dirty: true, ..state });
                    self.external_ramps.insert(output, ramp);
                    proof {
                        assert(self@.outputs =~= stage_external(v, change).outputs);
                    }
                },
                None => {},
            }
        }
        proof {
            assert(all.subrange(0, all.len() as int) =~= all);
        }
        let ghost staged = self@;
        let mut i: usize = 0;
        while i < internal_requests.len()
            invariant
                self.wf(),
                i <= internal_requests@.len(),
                self@ == stage_all_requests(staged, internal_requests@.subrange(0, i as int)),
            decreases internal_requests@.len() - i,
        {
            let request = internal_requests[i];
            proof {
                assert(internal_requests@.subrange(0, i + 1).drop_last() =~= internal_requests@.subrange(0, i as int));
            }
            let ghost v = self@;
            match request {
                SoftwareDimmingRequest::Read { .. } => {},
                SoftwareDimmingRequest::SetLevel { output, level_percent } => {
                    let level = if level_percent < 100 { level_percent } else { 100 };
                    self.internal_levels.insert(output.0, level);
                    match self.states.get(&output.0) {
                        Some(state) => {
                            self.states.insert(output.0, GammaOutput { dirty: true, ..state });
                            proof {
                                assert(self@.outputs =~= stage_request(v, request).outputs);
                            }
                        },
                        None => {
                            proof {
                                assert(self@.outputs =~= stage_request(v, request).outputs);
                            }
                        },
                    }
                },
            }
            i = i + 1;
        }
        proof {
            assert(internal_requests@.subrange(0, internal_requests@.len() as int) =~= internal_requests@);
        }
    }
}


/// The ramp an output's LUT is computed from when no client ramp is set:
/// the inherited one, else the identity.
pub open spec fn base_ramp(output: GammaOutputView) -> Seq<u16> {
    match output.inherited_ramp {
        Some(ramp) => ramp,
        None => spec_linear_ramp(output.state.size as nat),
    }
}

/// The update that brings an owned output's LUT up to date at `level`
/// percent: the inherited blob when no client ramp is set and the level is
/// full, else a new blob from the client ramp or the base ramp, dimmed.
pub open spec fn spec_gamma_update(output: GammaOutputView, level: u8, order: ByteOrder, update: GammaUpdate) -> bool {
    let state = output.state;
    let size = state.size as int;
    if output.external_ramp is None && level >= 100 {
        update == (GammaUpdate::InstallInherited { crtc: state.crtc, property: state.property, blob: state.inherited_blob })
    } else if 8 * size > usize::MAX {
        update == GammaUpdate::LengthOverflow
    } else {
        match output.external_ramp {
            Some(ramp) => if ramp.len() == 3 * size {
                &&& update matches GammaUpdate::CreateBlob { crtc, property, lut }
                &&& crtc == state.crtc && property == state.property
                &&& lut@ == spec_compose_drm_lut(ramp, size as nat, level, order)
            } else {
                update == (GammaUpdate::WrongRampLength { entries: ramp.len() as usize, expected: (3 * size) as usize })
            },
            None => {
                &&& update matches GammaUpdate::CreateBlob { crtc, property, lut }
                &&& crtc == state.crtc && property == state.property
                &&& lut@ == spec_compose_drm_lut(base_ramp(output), size as nat, level, order)
            },
        }
    }
}

/// Keys of the owned outputs that need an update.
pub open spec fn spec_dirty(v: GammaControllerView, raw: u64) -> bool {
    v.outputs.contains_key(raw) && v.outputs[raw].state.dirty
}

fn identify_outputs(entries: &Vec<(u64, GammaOutput)>) -> (outputs: Vec<(OutputId, GammaOutput)>)
    ensures
        output_entries(outputs@) == entries@,
{
    let mut outputs: Vec<(OutputId, GammaOutput)> = Vec::new();
    let mut i: usize = 0;
    while i < entries.len()
        invariant
            i <= entries@.len(),
            output_entries(outputs@) == entries@.subrange(0, i as int),
        decreases entries@.len() - i,
    {
        let (raw, state) = entries[i];
        let ghost before = outputs@;
        outputs.push((OutputId(raw), state));
        proof {
            assert(output_entries(before).len() == before.len());
            assert(output_entries(outputs@) =~= entries@.subrange(0, i + 1));
        }
        i = i + 1;
    }
    proof {
        assert(entries@.subrange(0, entries@.len() as int) =~= entries@);
    }
    outputs
}

impl GammaController {
    /// The owned outputs that need an update, each once.
    pub fn dirty_outputs(&self) -> (dirty: Vec<OutputId>)
        requires
            self.wf(),
        ensures
            forall|k: int, l: int| 0 <= k < l < dirty@.len() ==> (#[trigger] dirty@[k]).0 < (#[trigger] dirty@[l]).0,
            forall|raw: u64| spec_dirty(self@, raw) == (exists|k: int| 0 <= k < dirty@.len() && (#[trigger] dirty@[k]).0 == raw),
    {
        let listed = self.states.entries();
        proof {
            self.states.lemma_view();
        }
        let entries = sorted_by_key(&listed);
        let mut dirty: Vec<OutputId> = Vec::new();
        let mut i: usize = 0;
        while i < entries.len()
            invariant
                self.wf(),
                keys_increasing(entries@),
                keys_distinct(entries@),
                seq_map(entries@) == self.states@,
                i <= entries@.len(),
                forall|k: int| 0 <= k < dirty@.len() ==> visited(entries@, i as int, (#[trigger] dirty@[k]).0),
                forall|k: int, l: int| 0 <= k < l < dirty@.len() ==> (#[trigger] dirty@[k]).0 < (#[trigger] dirty@[l]).0,
                forall|raw: u64| (visited(entries@, i as int, raw) && spec_dirty(self@, raw)) == (exists|k: int|
                    0 <= k < dirty@.len() && (#[trigger] dirty@[k]).0 == raw),
            decreases entries@.len() - i,
        {
            let (raw, state) = entries[i];
            let ghost before = dirty@;
            proof {
                lemma_seq_map_index(entries@, i as int);
                assert(!visited(entries@, i as int, raw)) by {
                    if visited(entries@, i as int, raw) {
                        let j = choose|j: int| 0 <= j < i && #[trigger] entries@[j].0 == raw;
                        assert(entries@[j].0 != entries@[i as int].0);
                    }
                }
                assert forall|k: u64| visited(entries@, i + 1, k) == (visited(entries@, i as int, k) || k == raw) by {
                    if k == raw {
                        assert(entries@[i as int].0 == k);
                    }
                    if visited(entries@, i + 1, k) && k != raw {
                        let j = choose|j: int| 0 <= j < i + 1 && #[trigger] entries@[j].0 == k;
                        assert(0 <= j < i);
                    }
                }
            }
            if state.dirty {
                dirty.push(OutputId(raw));
                proof {
                    assert(dirty@[before.len() as int].0 == raw);
                    assert forall|k: int| 0 <= k < dirty@.len() implies visited(entries@, i + 1, (#[trigger] dirty@[k]).0) by {
                        if k < before.len() {
                            assert(dirty@[k] == before[k]);
                        }
                    }
                    assert forall|k: int, l: int| 0 <= k < l < dirty@.len() implies (#[trigger] dirty@[k]).0
                        < (#[trigger] dirty@[l]).0 by {
                        if l == before.len() {
                            assert(dirty@[k] == before[k]);
                            assert(visited(entries@, i as int, before[k].0));
                            let j = choose|j: int| 0 <= j < i && #[trigger] entries@[j].0 == before[k].0;
                            assert(entries@[j].0 < entries@[i as int].0);
                        } else {
                            assert(dirty@[k] == before[k] && dirty@[l] == before[l]);
                        }
                    }
                    assert forall|q: u64| (visited(entries@, i + 1, q) && spec_dirty(self@, q)) == (exists|k: int|
                        0 <= k < dirty@.len() && (#[trigger] dirty@[k]).0 == q) by {
                        if exists|k: int| 0 <= k < dirty@.len() && (#[trigger] dirty@[k]).0 == q {
                            let k = choose|k: int| 0 <= k < dirty@.len() && (#[trigger] dirty@[k]).0 == q;
                            if k < before.len() {
                                assert(dirty@[k] == before[k]);
                            }
                        }
                        if visited(entries@, i as int, q) && spec_dirty(self@, q) {
                            let k = choose|k: int| 0 <= k < before.len() && (#[trigger] before[k]).0 == q;
                            assert(dirty@[k] == before[k]);
                        }
                    }
                }
            } else {
                proof {
                    assert forall|k: int| 0 <= k < dirty@.len() implies visited(entries@, i + 1, (#[trigger] dirty@[k]).0) by {}
                }
            }
            i = i + 1;
        }
        proof {
            assert forall|raw: u64| spec_dirty(self@, raw) implies visited(entries@, entries@.len() as int, raw) by {
                let j = choose|j: int| 0 <= j < entries@.len() && #[trigger] entries@[j].0 == raw;
                assert(entries@[j].0 == raw);
            }
        }
        dirty
    }

    /// Computes the update of an owned output at its software dimming level
    /// and marks it clean. `None` when the output is not owned.
    pub fn prepare_output(&mut self, output: OutputId, order: ByteOrder) -> (update: Option<GammaUpdate>)
        requires
            old(self).wf(),
        ensures
            final(self).wf(),
            match update {
                None => !old(self)@.outputs.contains_key(output.0) && final(self)@ == old(self)@,
                Some(update) => {
                    let current = old(self)@.outputs[output.0];
                    &&& old(self)@.outputs.contains_key(output.0)
                    &&& spec_gamma_update(current, spec_internal_level(old(self)@, output), order, update)
                    &&& final(self)@ == with_state(old(self)@, output.0, GammaOutput { dirty: false, ..current.state })
                },
            },
    {
        let ghost v = self@;
        let state = match self.states.get(&output.0) {
            Some(state) => state,
            None => {
                return None;
            },
        };
        let level = self.internal_level(output);
        self.states.insert(output.0, GammaOutput { dirty: false, ..state });
        proof {
            assert(self@.outputs =~= with_state(v, output.0, GammaOutput { dirty: false, ..state }).outputs);
        }
        let external = self.external_ramps.get(output);
        let has_external = match external {
            Some(Some(_)) => true,
            _ => false,
        };
        if !has_external && level >= 100 {
            return Some(GammaUpdate::InstallInherited {
                crtc: state.crtc,
                property: state.property,
                blob: state.inherited_blob,
            });
        }
        let size = state.size as usize;
        let expected = match size.checked_mul(3) {
            Some(expected) => expected,
            None => {
                return Some(GammaUpdate::LengthOverflow);
            },
        };
        if size.checked_mul(8).is_none() {
            return Some(GammaUpdate::LengthOverflow);
        }
        match external {
            Some(Some(ramp)) => {
                if ramp.len() == expected {
                    Some(GammaUpdate::CreateBlob {
                        crtc: state.crtc,
                        property: state.property,
                        lut: compose_drm_lut(ramp.as_slice(), size, level, order),
                    })
                } else {
                    Some(GammaUpdate::WrongRampLength { entries: ramp.len(), expected })
                }
            },
            _ => {
                let lut = match self.inherited_ramps.get(output) {
                    Some(Some(ramp)) => compose_drm_lut(ramp.as_slice(), size, level, order),
                    _ => {
                        let linear = linear_ramp(state.size);
                        compose_drm_lut(linear.as_slice(), size, level, order)
                    },
                };
                Some(GammaUpdate::CreateBlob { crtc: state.crtc, property: state.property, lut })
            },
        }
    }

    /// The device accepted the update: `owned` (the created blob, or `None`
    /// for the inherited one) is now installed. Returns the blob it replaced,
    /// for the caller to destroy.
    pub fn blob_installed(&mut self, output: OutputId, owned: Option<u64>) -> (replaced: Option<u64>)
        requires
            old(self).wf(),
        ensures
            final(self).wf(),
            if old(self)@.outputs.contains_key(output.0) {
                let current = old(self)@.outputs[output.0].state;
                &&& replaced == current.installed_blob
                &&& final(self)@ == with_state(old(self)@, output.0, GammaOutput { installed_blob: owned, ..current })
            } else {
                replaced is None && final(self)@ == old(self)@
            },
    {
        let ghost v = self@;
        match self.states.get(&output.0) {
            Some(state) => {
                self.states.insert(output.0, GammaOutput { installed_blob: owned, ..state });
                proof {
                    assert(self@.outputs =~= with_state(v, output.0, GammaOutput { installed_blob: owned, ..state }).outputs);
                }
                state.installed_blob
            },
            None => None,
        }
    }

    /// The device rejected the update: the output stays dirty.
    pub fn blob_rejected(&mut self, output: OutputId)
        requires
            old(self).wf(),
        ensures
            final(self).wf(),
            if old(self)@.outputs.contains_key(output.0) {
                final(self)@ == with_state(old(self)@, output.0, GammaOutput { dirty: true, ..old(self)@.outputs[output.0].state })
            } else {
                final(self)@ == old(self)@
            },
    {
        let ghost v = self@;
        match self.states.get(&output.0) {
            Some(state) => {
                self.states.insert(output.0, GammaOutput { dirty: true, ..state });
                proof {
                    assert(self@.outputs =~= with_state(v, output.0, GammaOutput { dirty: true, ..state }).outputs);
                }
            },
            None => {},
        }
    }

    /// Records that updating an owned output failed. When a client ramp was
    /// set it is dropped, the output becomes dirty, the failure is reported
    /// for the client, and `true` asks the caller to try once more with the
    /// software layer alone.
    pub fn apply_failed(&mut self, output: OutputId, outcome: &mut GammaApplyOutcome) -> (retry: bool)
        requires
            old(self).wf(),
        ensures
            final(self).wf(),
            final(outcome).failed_outputs@ == (if old(outcome).failed_outputs@.contains(output) {
                old(outcome).failed_outputs@
            } else {
                old(outcome).failed_outputs@.push(output)
            }),
            retry == (old(self)@.outputs.contains_key(output.0) && old(self)@.outputs[output.0].external_ramp is Some),
            retry ==> final(outcome).failed_external@ == old(outcome).failed_external@.push(output),
            retry ==> final(self)@ == (GammaControllerView {
                outputs: old(self)@.outputs.insert(output.0, GammaOutputView {
                    state: GammaOutput { dirty: true, ..old(self)@.outputs[output.0].state },
                    external_ramp: None,
                    ..old(self)@.outputs[output.0]
                }),
                ..old(self)@
            }),
            !retry ==> final(outcome).failed_external@ == old(outcome).failed_external@ && final(self)@ == old(self)@,
    {
        if !outcome.failed(output) {
            outcome.failed_outputs.push(output);
        }
        let ghost v = self@;
        let state = match self.states.get(&output.0) {
            Some(state) => state,
            None => {
                return false;
            },
        };
        let had_external = match self.external_ramps.get(output) {
            Some(Some(_)) => true,
            _ => false,
        };
        if !had_external {
            return false;
        }
        outcome.failed_external.push(output);
        self.external_ramps.insert(output, None);
        self.states.insert(output.0, GammaOutput { dirty: true, ..state });
        proof {
            assert(self@.outputs =~= v.outputs.insert(output.0, GammaOutputView {
                state: GammaOutput { dirty: true, ..state },
                external_ramp: None,
                ..v.outputs[output.0]
            }));
        }
        true
    }

    /// Gives up every owned output, for the caller to restore: each output
    /// once, with its DRM state.
    pub fn take_outputs(&mut self) -> (outputs: Vec<(OutputId, GammaOutput)>)
        requires
            old(self).wf(),
        ensures
            final(self).wf(),
            keys_distinct(output_entries(outputs@)),
            keys_increasing(output_entries(outputs@)),
            seq_map(output_entries(outputs@)) == Map::new(
                |k: u64| old(self)@.outputs.contains_key(k),
                |k: u64| old(self)@.outputs[k].state,
            ),
            final(self)@ == (GammaControllerView { outputs: Map::empty(), ..old(self)@ }),
    {
        let ghost v = self@;
        let listed = self.states.entries();
        proof {
            self.states.lemma_view();
        }
        let entries = sorted_by_key(&listed);
        proof {
            assert(seq_map(entries@) =~= Map::new(|k: u64| v.outputs.contains_key(k), |k: u64| v.outputs[k].state));
        }
        self.states.clear();
        proof {
            assert(self@.outputs =~= Map::<u64, GammaOutputView>::empty());
        }
        identify_outputs(&entries)
    }

    /// The software dimming state for each request, in order.
    pub fn software_states(&self, requests: &Vec<SoftwareDimmingRequest>, outcome: &GammaApplyOutcome) -> (states: Vec<SoftwareDimmingState>)
        requires
            self.wf(),
        ensures
            states@.len() == requests@.len(),
            forall|i: int| 0 <= i < requests@.len() ==> #[trigger] states@[i] == (SoftwareDimmingState {
                output: requests@[i].spec_output(),
                level_percent: spec_internal_level(self@, requests@[i].spec_output()),
                supported: self@.outputs.contains_key(requests@[i].spec_output().0)
                    && !outcome.failed_outputs@.contains(requests@[i].spec_output()),
            }),
    {
        let mut states: Vec<SoftwareDimmingState> = Vec::new();
        let mut i: usize = 0;
        while i < requests.len()
            invariant
                self.wf(),
                i <= requests@.len(),
                states@.len() == i,
                forall|j: int| 0 <= j < i ==> #[trigger] states@[j] == (SoftwareDimmingState {
                    output: requests@[j].spec_output(),
                    level_percent: spec_internal_level(self@, requests@[j].spec_output()),
                    supported: self@.outputs.contains_key(requests@[j].spec_output().0)
                        && !outcome.failed_outputs@.contains(requests@[j].spec_output()),
                }),
            decreases requests@.len() - i,
        {
            let output = requests[i].output();
            let failed = outcome.failed(output);
            states.push(self.software_state(output, failed));
            i = i + 1;
        }
        states
    }
}


/// One scanout reconciled and, when it had to be probed, the probe recorded.
pub open spec fn spec_reconcile_step(
    v: GammaControllerView,
    scanout: Scanout,
    force_reapply: bool,
    probed: Option<GammaOutputView>,
) -> GammaControllerView {
    let (step, after) = spec_reconcile_scanout(v, scanout, force_reapply);
    if step is Probe {
        spec_record_probe(after, scanout, probed)
    } else {
        after
    }
}

/// The scanouts reconciled in order; `probes[i]` is what probing the CRTC
/// of `scanouts[i]` found, if it was probed.
pub open spec fn spec_reconcile_all(
    v: GammaControllerView,
    scanouts: Seq<Scanout>,
    force_reapply: bool,
    probes: Seq<Option<GammaOutputView>>,
) -> GammaControllerView
    decreases scanouts.len(),
{
    if scanouts.len() == 0 {
        v
    } else {
        spec_reconcile_step(
            spec_reconcile_all(v, scanouts.drop_last(), force_reapply, probes),
            scanouts.last(),
            force_reapply,
            probes[scanouts.len() - 1],
        )
    }
}

/// Whether no two scanouts show the same output.
pub open spec fn outputs_distinct(scanouts: Seq<Scanout>) -> bool {
    forall|i: int, j: int| 0 <= i < j < scanouts.len() ==> (#[trigger] scanouts[i]).output != (#[trigger] scanouts[j]).output
}

/// Whether every probe found on a scanout's CRTC is an output on that CRTC.
pub open spec fn probes_match(scanouts: Seq<Scanout>, probes: Seq<Option<GammaOutputView>>) -> bool {
    &&& probes.len() == scanouts.len()
    &&& forall|i: int| 0 <= i < probes.len() && (#[trigger] probes[i]) is Some ==> probes[i]->0.state.crtc == scanouts[i].crtc
}

/// The raw identifiers of the scanouts' outputs.
pub open spec fn scanout_keys(scanouts: Seq<Scanout>) -> Seq<u64> {
    Seq::new(scanouts.len(), |i: int| scanouts[i].output.0)
}

/// Reconciling a prefix keeps the owned and unsupported outputs apart and
/// among the scanouts, and leaves every scanout of the prefix known.
proof fn lemma_reconcile_prefix(
    v: GammaControllerView,
    scanouts: Seq<Scanout>,
    force_reapply: bool,
    probes: Seq<Option<GammaOutputView>>,
    n: int,
)
    requires
        v.outputs.dom().disjoint(v.unsupported.dom()),
        forall|k: u64| #[trigger] v.outputs.contains_key(k) ==> scanned_out(scanouts, k),
        forall|k: u64| #[trigger] v.unsupported.contains_key(k) ==> scanned_out(scanouts, k),
        forall|i: int, j: int| 0 <= i < j < scanouts.len() ==> (#[trigger] scanouts[i]).output != (#[trigger] scanouts[j]).output,
        probes.len() == scanouts.len(),
        forall|i: int| 0 <= i < probes.len() && (#[trigger] probes[i]) is Some ==> probes[i]->0.state.crtc == scanouts[i].crtc,
        0 <= n <= scanouts.len(),
    ensures
        ({
            let w = spec_reconcile_all(v, scanouts.subrange(0, n), force_reapply, probes);
            &&& w.outputs.dom().disjoint(w.unsupported.dom())
            &&& forall|k: u64| #[trigger] w.outputs.contains_key(k) ==> scanned_out(scanouts, k)
            &&& forall|k: u64| #[trigger] w.unsupported.contains_key(k) ==> scanned_out(scanouts, k)
            &&& forall|j: int| 0 <= j < n ==> scanout_known(w, #[trigger] scanouts[j])
        }),
    decreases n,
{
    if n > 0 {
        lemma_reconcile_prefix(v, scanouts, force_reapply, probes, n - 1);
        let prefix = scanouts.subrange(0, n);
        assert(prefix.drop_last() =~= scanouts.subrange(0, n - 1));
        assert(prefix.last() == scanouts[n - 1]);
        let w = spec_reconcile_all(v, scanouts.subrange(0, n - 1), force_reapply, probes);
        let scanout = scanouts[n - 1];
        let raw = scanout.output.0;
        let after = spec_reconcile_step(w, scanout, force_reapply, probes[n - 1]);
        assert(after == spec_reconcile_all(v, prefix, force_reapply, probes));
        assert(scanned_out(scanouts, raw)) by {
            assert(scanouts[n - 1].output.0 == raw);
        }
        assert forall|j: int| 0 <= j < n implies scanout_known(after, #[trigger] scanouts[j]) by {
            if j < n - 1 {
                assert(scanouts[j].output != scanouts[n - 1].output);
                assert(scanout_known(w, scanouts[j]));
            }
        }
        assert(after.outputs.dom().disjoint(after.unsupported.dom())) by {
            assert forall|k: u64| after.outputs.contains_key(k) implies !after.unsupported.contains_key(k) by {
                if k != raw {
                    assert(w.outputs.contains_key(k));
                }
            }
        }
    }
}

/// The controller after a reconcile with the scanouts: unchanged when the
/// reconcile has nothing to do, else begun and with every scanout
/// reconciled, `probes[i]` being what probing the CRTC of `scanouts[i]` found.
pub open spec fn spec_reconciled(
    v: GammaControllerView,
    scanouts: Seq<Scanout>,
    force_reapply: bool,
    probes: Seq<Option<GammaOutputView>>,
) -> GammaControllerView {
    if spec_reconcile_skips(v, scanouts, force_reapply) {
        v
    } else {
        spec_reconcile_all(spec_begin_reconcile(v, scanouts, force_reapply), scanouts, force_reapply, probes)
    }
}

/// Reconciling scanouts that show distinct outputs, whatever each probe of
/// a scanout's CRTC finds, settles the controller: it still never holds an
/// output both owned and unsupported, and a second reconcile with the same
/// scanouts and no forced reapply has nothing to do, so it hands back no
/// removed outputs and leaves the controller unchanged.
pub proof fn law_reconcile_settles_topology(
    controller: GammaController,
    scanouts: Seq<Scanout>,
    force_reapply: bool,
    probes: Seq<Option<GammaOutputView>>,
)
    requires
        controller.wf(),
        outputs_distinct(scanouts),
        probes_match(scanouts, probes),
    ensures
        ({
            let settled = spec_reconciled(controller@, scanouts, force_reapply, probes);
            &&& settled.outputs.dom().disjoint(settled.unsupported.dom())
            &&& spec_reconcile_skips(settled, scanouts, false)
        }),
{
    controller.lemma_wf_outputs_apart();
    let v = controller@;
    if !spec_reconcile_skips(v, scanouts, force_reapply) {
        let begun = spec_begin_reconcile(v, scanouts, force_reapply);
        lemma_reconcile_prefix(begun, scanouts, force_reapply, probes, scanouts.len() as int);
        assert(scanouts.subrange(0, scanouts.len() as int) =~= scanouts);
        let w = spec_reconcile_all(begun, scanouts, force_reapply, probes);
        let keys = scanout_keys(scanouts);
        let all = keys.to_set();
        assert(keys.no_duplicates()) by {
            assert forall|i: int, j: int| 0 <= i < keys.len() && 0 <= j < keys.len() && i != j implies keys[i] != keys[j] by {
                if i < j {
                    assert(scanouts[i].output != scanouts[j].output);
                } else {
                    assert(scanouts[j].output != scanouts[i].output);
                }
            }
        }
        keys.unique_seq_to_set();
        assert forall|k: u64| scanned_out(scanouts, k) <==> all.contains(k) by {
            if scanned_out(scanouts, k) {
                let i = choose|i: int| 0 <= i < scanouts.len() && #[trigger] scanouts[i].output.0 == k;
                assert(keys[i] == k);
            }
            if all.contains(k) {
                let i = choose|i: int| 0 <= i < keys.len() && keys[i] == k;
                assert(scanouts[i].output.0 == k);
            }
        }
        assert(w.outputs.dom() + w.unsupported.dom() =~= all) by {
            assert forall|k: u64| all.contains(k) implies (w.outputs.dom() + w.unsupported.dom()).contains(k) by {
                let i = choose|i: int| 0 <= i < scanouts.len() && #[trigger] scanouts[i].output.0 == k;
                assert(scanout_known(w, scanouts[i]));
            }
        }
        vstd::set_lib::lemma_set_subset_finite(all, w.outputs.dom());
        vstd::set_lib::lemma_set_subset_finite(all, w.unsupported.dom());
        vstd::set_lib::lemma_set_disjoint_lens(w.outputs.dom(), w.unsupported.dom());
    }
}


/// Reconciling scanouts depends only on the probes of those scanouts.
proof fn lemma_reconcile_all_own_probes(
    v: GammaControllerView,
    scanouts: Seq<Scanout>,
    force_reapply: bool,
    probes: Seq<Option<GammaOutputView>>,
    other: Seq<Option<GammaOutputView>>,
)
    requires
        forall|i: int| 0 <= i < scanouts.len() ==> probes[i] == other[i],
    ensures
        spec_reconcile_all(v, scanouts, force_reapply, probes) == spec_reconcile_all(v, scanouts, force_reapply, other),
        spec_moved_restores(v, scanouts, force_reapply, probes) == spec_moved_restores(v, scanouts, force_reapply, other),
    decreases scanouts.len(),
{
    if scanouts.len() > 0 {
        lemma_reconcile_all_own_probes(v, scanouts.drop_last(), force_reapply, probes, other);
    }
}

/// What probing a scanout's CRTC found, as the controller records it: the
/// CRTC's gamma properties and installed LUT, or nothing usable.
pub open spec fn spec_probe_view(
    scanout: Scanout,
    found: Option<(GammaProperties, Option<Vec<u8>>)>,
    order: ByteOrder,
) -> Option<GammaOutputView> {
    match found {
        Some(found) => Some(probed_output(scanout, found.0, lut_bytes_view(found.1), order)),
        None => None,
    }
}

/// Whether reconciling `scanouts[i]`, after the scanouts before it, probes
/// its CRTC.
pub open spec fn spec_probes_at(
    v: GammaControllerView,
    scanouts: Seq<Scanout>,
    force_reapply: bool,
    probes: Seq<Option<GammaOutputView>>,
    i: int,
) -> bool {
    spec_reconcile_scanout(spec_reconcile_all(v, scanouts.subrange(0, i), force_reapply, probes), scanouts[i], force_reapply).0 is Probe
}

/// The previous states of moved outputs that reconciling the scanouts in
/// order restores before probing their new CRTCs.
pub open spec fn spec_moved_restores(
    v: GammaControllerView,
    scanouts: Seq<Scanout>,
    force_reapply: bool,
    probes: Seq<Option<GammaOutputView>>,
) -> Seq<(u64, GammaOutput)>
    decreases scanouts.len(),
{
    if scanouts.len() == 0 {
        Seq::empty()
    } else {
        let earlier = spec_moved_restores(v, scanouts.drop_last(), force_reapply, probes);
        let before = spec_reconcile_all(v, scanouts.drop_last(), force_reapply, probes);
        match spec_reconcile_scanout(before, scanouts.last(), force_reapply).0 {
            ScanoutGamma::Probe { previous: Some(previous) } => earlier.push((scanouts.last().output.0, previous)),
            _ => earlier,
        }
    }
}

/// Whether `found` is what some call of `probe` on `scanout` returned, as
/// the controller records it.
pub open spec fn probe_returned<P: Fn(Scanout) -> Option<(GammaProperties, Option<Vec<u8>>)>>(
    probe: P,
    scanout: Scanout,
    order: ByteOrder,
    found: Option<GammaOutputView>,
) -> bool {
    exists|result: Option<(GammaProperties, Option<Vec<u8>>)>|
        #[trigger] probe.ensures((scanout,), result) && found == spec_probe_view(scanout, result, order)
}

/// What a reconcile did: the gamma table size of every owned output
/// afterwards, and each output state handed to the restore callback, in the
/// order of the calls, with what the callback returned.
pub struct Reconciled<T> {
    pub capabilities: Vec<(OutputId, u32)>,
    pub restored: Vec<(OutputId, GammaOutput, T)>,
}

/// The outputs and states a reconcile handed to its restore callback.
pub open spec fn restore_entries<T>(restored: Seq<(OutputId, GammaOutput, T)>) -> Seq<(u64, GammaOutput)> {
    restored.map_values(|entry: (OutputId, GammaOutput, T)| (entry.0.0, entry.1))
}

/// Whether `restored` holds first each owned output that no scanout shows
/// any more, once each, then the previous states of moved outputs in the
/// order the scanouts were reconciled.
pub open spec fn spec_restored_in_order(
    restored: Seq<(u64, GammaOutput)>,
    v: GammaControllerView,
    scanouts: Seq<Scanout>,
    force_reapply: bool,
    probes: Seq<Option<GammaOutputView>>,
) -> bool {
    let moved = spec_moved_restores(spec_begin_reconcile(v, scanouts, force_reapply), scanouts, force_reapply, probes);
    let gone = restored.len() - moved.len();
    &&& gone >= 0
    &&& keys_distinct(restored.subrange(0, gone))
    &&& seq_map(restored.subrange(0, gone)) == spec_removed_outputs(v, scanouts)
    &&& restored.subrange(gone, restored.len() as int) == moved
}

impl GammaController {
    /// Reconciles with the scanouts when they changed or a reapply is forced:
    /// hands each owned output that is gone to `restore`, then takes the
    /// scanouts in order, handing a moved output's previous state to
    /// `restore` and probing its CRTC with `probe`, which gives the CRTC's
    /// gamma properties and its installed LUT, or `None` when it has no
    /// usable gamma LUT. What a probe returns is what the controller
    /// records. Returns `None` when nothing needed doing. Whatever the probes
    /// find, a second reconcile with the same scanouts, all distinct, and no
    /// forced reapply has nothing to do.
    pub fn reconcile_if_needed<
        T,
        R: Fn(OutputId, GammaOutput) -> T,
        P: Fn(Scanout) -> Option<(GammaProperties, Option<Vec<u8>>)>,
    >(
        &mut self,
        scanouts: &Vec<Scanout>,
        force_reapply: bool,
        order: ByteOrder,
        restore: R,
        probe: P,
    ) -> (reconciled: Option<Reconciled<T>>)
        requires
            old(self).wf(),
            forall|output: OutputId, state: GammaOutput| #[trigger] restore.requires((output, state)),
            forall|scanout: Scanout| #[trigger] probe.requires((scanout,)),
        ensures
            final(self).wf(),
            (reconciled is None) == spec_reconcile_skips(old(self)@, scanouts@, force_reapply),
            reconciled is None ==> final(self)@ == old(self)@,
            (exists|probes: Seq<Option<GammaOutputView>>|
                #![trigger spec_reconciled(old(self)@, scanouts@, force_reapply, probes)]
                {
                    &&& probes_match(scanouts@, probes)
                    &&& final(self)@ == spec_reconciled(old(self)@, scanouts@, force_reapply, probes)
                    &&& reconciled is Some ==> {
                        &&& forall|i: int|
                            0 <= i < scanouts@.len() && #[trigger] spec_probes_at(
                                spec_begin_reconcile(old(self)@, scanouts@, force_reapply),
                                scanouts@,
                                force_reapply,
                                probes,
                                i,
                            ) ==> probe_returned(probe, scanouts@[i], order, probes[i])
                        &&& spec_restored_in_order(
                            restore_entries(reconciled->0.restored@),
                            old(self)@,
                            scanouts@,
                            force_reapply,
                            probes,
                        )
                    }
                }),
            outputs_distinct(scanouts@) ==> spec_reconcile_skips(final(self)@, scanouts@, false),
            match reconciled {
                Some(reconciled) => {
                    &&& keys_distinct(capability_entries(reconciled.capabilities@))
                    &&& seq_map(capability_entries(reconciled.capabilities@)) == spec_capabilities(final(self)@)
                    &&& forall|k: int| 0 <= k < reconciled.restored@.len() ==> restore.ensures(
                        (reconciled.restored@[k].0, reconciled.restored@[k].1),
                        #[trigger] reconciled.restored@[k].2,
                    )
                },
                None => true,
            },
    {
        let ghost start = *self;
        let removed = match self.begin_reconcile(scanouts, force_reapply) {
            Some(removed) => removed,
            None => {
                proof {
                    let none = Seq::new(scanouts@.len(), |i: int| None::<GammaOutputView>);
                    assert(probes_match(scanouts@, none));
                    assert(spec_reconciled(start@, scanouts@, force_reapply, none) == start@);
                    if outputs_distinct(scanouts@) {
                        law_reconcile_settles_topology(start, scanouts@, force_reapply, none);
                    }
                }
                return None;
            },
        };
        let ghost begun = self@;
        let ghost gone = output_entries(removed@);
        let mut restored: Vec<(OutputId, GammaOutput, T)> = Vec::new();
        let mut k: usize = 0;
        while k < removed.len()
            invariant
                self.wf(),
                self@ == begun,
                k <= removed@.len(),
                gone == output_entries(removed@),
                restore_entries(restored@) == gone.subrange(0, k as int),
                forall|j: int| 0 <= j < restored@.len() ==> restore.ensures(
                    (restored@[j].0, restored@[j].1),
                    #[trigger] restored@[j].2,
                ),
                forall|output: OutputId, state: GammaOutput| #[trigger] restore.requires((output, state)),
            decreases removed@.len() - k,
        {
            let (output, state) = removed[k];
            let answer = restore(output, state);
            let ghost before = restored@;
            restored.push((output, state, answer));
            proof {
                assert(restore_entries(before).len() == before.len());
                assert(restore_entries(restored@) =~= gone.subrange(0, k + 1));
            }
            k = k + 1;
        }
        proof {
            assert(gone.subrange(0, removed@.len() as int) =~= gone);
        }
        let ghost mut probes: Seq<Option<GammaOutputView>> = Seq::empty();
        let mut i: usize = 0;
        while i < scanouts.len()
            invariant
                self.wf(),
                i <= scanouts@.len(),
                probes.len() == i,
                forall|j: int| 0 <= j < i && (#[trigger] probes[j]) is Some ==> probes[j]->0.state.crtc == scanouts@[j].crtc,
                self@ == spec_reconcile_all(begun, scanouts@.subrange(0, i as int), force_reapply, probes),
                forall|j: int| 0 <= j < i && #[trigger] spec_probes_at(begun, scanouts@, force_reapply, probes, j)
                    ==> probe_returned(probe, scanouts@[j], order, probes[j]),
                restore_entries(restored@) == gone + spec_moved_restores(
                    begun,
                    scanouts@.subrange(0, i as int),
                    force_reapply,
                    probes,
                ),
                forall|j: int| 0 <= j < restored@.len() ==> restore.ensures(
                    (restored@[j].0, restored@[j].1),
                    #[trigger] restored@[j].2,
                ),
                forall|output: OutputId, state: GammaOutput| #[trigger] restore.requires((output, state)),
                forall|scanout: Scanout| #[trigger] probe.requires((scanout,)),
            decreases scanouts@.len() - i,
        {
            let scanout = scanouts[i];
            let ghost before = self@;
            let ghost restored_before = restored@;
            let step = self.reconcile_scanout(scanout, force_reapply);
            let ghost mut found: Option<GammaOutputView> = None;
            if let ScanoutGamma::Probe { previous } = step {
                if let Some(previous) = previous {
                    let answer = restore(scanout.output, previous);
                    restored.push((scanout.output, previous, answer));
                    proof {
                        assert(restore_entries(restored_before).len() == restored_before.len());
                        assert(restore_entries(restored@) =~= restore_entries(restored_before).push(
                            (scanout.output.0, previous),
                        ));
                    }
                }
                let result = probe(scanout);
                proof {
                    found = spec_probe_view(scanout, result, order);
                    assert(probe.ensures((scanout,), result));
                }
                let (properties, inherited) = match result {
                    Some((properties, inherited)) => (Some(properties), inherited),
                    None => (None, None),
                };
                self.record_probe(scanout, properties, inherited, order);
            }
            proof {
                let prefix = scanouts@.subrange(0, i as int);
                let longer = scanouts@.subrange(0, i + 1);
                let pushed = probes.push(found);
                lemma_reconcile_all_own_probes(begun, prefix, force_reapply, probes, pushed);
                assert(longer.drop_last() =~= prefix);
                assert(longer.last() == scanout);
                assert(pushed[i as int] == found);
                assert(self@ == spec_reconcile_step(before, scanout, force_reapply, found));
                assert forall|j: int| 0 <= j < i + 1 && #[trigger] spec_probes_at(begun, scanouts@, force_reapply, pushed, j)
                    implies probe_returned(probe, scanouts@[j], order, pushed[j]) by {
                    if j < i {
                        lemma_reconcile_all_own_probes(begun, scanouts@.subrange(0, j), force_reapply, probes, pushed);
                        assert(spec_probes_at(begun, scanouts@, force_reapply, probes, j));
                    } else {
                        assert(scanouts@.subrange(0, j) =~= prefix);
                    }
                }
                assert(spec_reconcile_all(begun, prefix, force_reapply, pushed) == before);
                let moved_before = spec_moved_restores(begun, prefix, force_reapply, probes);
                assert(spec_moved_restores(begun, prefix, force_reapply, pushed) == moved_before);
                match step {
                    ScanoutGamma::Probe { previous: Some(previous) } => {
                        assert(spec_moved_restores(begun, longer, force_reapply, pushed) == moved_before.push(
                            (scanout.output.0, previous),
                        ));
                        assert(restore_entries(restored@) =~= gone + moved_before.push((scanout.output.0, previous)));
                    },
                    _ => {
                        assert(spec_moved_restores(begun, longer, force_reapply, pushed) == moved_before);
                        assert(restored@ == restored_before);
                    },
                }
                probes = pushed;
            }
            i = i + 1;
        }
        proof {
            assert(scanouts@.subrange(0, scanouts@.len() as int) =~= scanouts@);
            assert(probes_match(scanouts@, probes));
            assert(self@ == spec_reconciled(start@, scanouts@, force_reapply, probes));
            let entries = restore_entries(restored@);
            let moved = spec_moved_restores(begun, scanouts@, force_reapply, probes);
            assert(entries.subrange(0, gone.len() as int) =~= gone);
            assert(entries.subrange(gone.len() as int, entries.len() as int) =~= moved);
            if outputs_distinct(scanouts@) {
                law_reconcile_settles_topology(start, scanouts@, force_reapply, probes);
            }
        }
        let capabilities = self.capabilities();
        Some(Reconciled { capabilities, restored })
    }
}

/// Dimming requests leave the owned outputs and their client ramps as they are.
proof fn lemma_requests_keep_client_ramps(v: GammaControllerView, requests: Seq<SoftwareDimmingRequest>)
    ensures
        forall|k: u64| #[trigger] stage_all_requests(v, requests).outputs.contains_key(k) == v.outputs.contains_key(k),
        forall|k: u64| v.outputs.contains_key(k) ==> #[trigger] stage_all_requests(v, requests).outputs[k].external_ramp
            == v.outputs[k].external_ramp,
        forall|k: u64| v.outputs.contains_key(k) && v.outputs[k].state.dirty
            ==> #[trigger] stage_all_requests(v, requests).outputs[k].state.dirty,
    decreases requests.len(),
{
    if requests.len() > 0 {
        lemma_requests_keep_client_ramps(v, requests.drop_last());
    }
}

/// Staging client ramps keeps the owned outputs, and an output's client ramp
/// is the last one staged for it.
proof fn lemma_last_staged_ramp(v: GammaControllerView, changes: Seq<(u64, Option<Seq<u16>>)>, i: int)
    requires
        0 <= i < changes.len(),
        v.outputs.contains_key(changes[i].0),
        forall|j: int| i < j < changes.len() ==> #[trigger] changes[j].0 != changes[i].0,
    ensures
        forall|k: u64| #[trigger] stage_all_external(v, changes).outputs.contains_key(k) == v.outputs.contains_key(k),
        stage_all_external(v, changes).outputs[changes[i].0].external_ramp == changes[i].1,
        stage_all_external(v, changes).outputs[changes[i].0].state.dirty,
    decreases changes.len(),
{
    let last = changes.len() - 1;
    if i == last {
        lemma_staging_keeps_outputs(v, changes.drop_last());
    } else {
        let earlier = changes.drop_last();
        assert forall|j: int| i < j < earlier.len() implies #[trigger] earlier[j].0 != earlier[i].0 by {
            assert(earlier[j] == changes[j]);
        }
        lemma_last_staged_ramp(v, earlier, i);
        assert(changes[last].0 != changes[i].0);
    }
}

/// Staging client ramps keeps the set of owned outputs.
proof fn lemma_staging_keeps_outputs(v: GammaControllerView, changes: Seq<(u64, Option<Seq<u16>>)>)
    ensures
        forall|k: u64| #[trigger] stage_all_external(v, changes).outputs.contains_key(k) == v.outputs.contains_key(k),
    decreases changes.len(),
{
    if changes.len() > 0 {
        lemma_staging_keeps_outputs(v, changes.drop_last());
        let before = stage_all_external(v, changes.drop_last());
        let after = stage_all_external(v, changes);
        assert(after == stage_external(before, changes.last()));
        assert forall|k: u64| #[trigger] after.outputs.contains_key(k) == v.outputs.contains_key(k) by {
            assert(before.outputs.contains_key(k) == v.outputs.contains_key(k));
        }
    }
}

/// After `stage_changes`, an owned output's client ramp is the last ramp
/// staged for it, `None` included: a client that drops its ramp takes it off
/// the output. The output is due for an update, and dimming requests staged
/// with it do not touch client ramps.
pub proof fn law_staged_client_ramp_replaces_the_old(
    v: GammaControllerView,
    changes: Seq<(u64, Option<Seq<u16>>)>,
    requests: Seq<SoftwareDimmingRequest>,
    i: int,
)
    requires
        0 <= i < changes.len(),
        v.outputs.contains_key(changes[i].0),
        forall|j: int| i < j < changes.len() ==> #[trigger] changes[j].0 != changes[i].0,
    ensures
        ({
            let after = stage_all_requests(stage_all_external(v, changes), requests);
            &&& after.outputs.contains_key(changes[i].0)
            &&& after.outputs[changes[i].0].external_ramp == changes[i].1
            &&& after.outputs[changes[i].0].state.dirty
        }),
{
    lemma_last_staged_ramp(v, changes, i);
    lemma_requests_keep_client_ramps(stage_all_external(v, changes), requests);
}

/// An output no change names keeps its client ramp through `stage_changes`.
pub proof fn law_unstaged_client_ramp_stays(
    v: GammaControllerView,
    changes: Seq<(u64, Option<Seq<u16>>)>,
    requests: Seq<SoftwareDimmingRequest>,
    raw: u64,
)
    requires
        v.outputs.contains_key(raw),
        forall|j: int| 0 <= j < changes.len() ==> #[trigger] changes[j].0 != raw,
    ensures
        ({
            let after = stage_all_requests(stage_all_external(v, changes), requests);
            &&& after.outputs.contains_key(raw)
            &&& after.outputs[raw].external_ramp == v.outputs[raw].external_ramp
        }),
    decreases changes.len(),
{
    if changes.len() > 0 {
        let earlier = changes.drop_last();
        assert forall|j: int| 0 <= j < earlier.len() implies #[trigger] earlier[j].0 != raw by {
            assert(earlier[j] == changes[j]);
        }
        law_unstaged_client_ramp_stays(v, earlier, Seq::empty(), raw);
        assert(changes[changes.len() - 1].0 != raw);
    }
    lemma_requests_keep_client_ramps(stage_all_external(v, changes), requests);
}

} // verus!
