//! Identity of connected display outputs.

use vstd::prelude::*;

verus! {

/// A connected display output, identified for the lifetime of its connection.
#[derive(Clone, Copy, Debug, PartialEq, Eq, Structural, Hash, PartialOrd, Ord)]
pub struct OutputId(pub u64);

impl OutputId {
    pub fn same(&self, other: &OutputId) -> (same: bool)
        ensures
            same == (*self == *other),
    {
        self.0 == other.0
    }
}

/// The output a shell monitor identifier names, if the identifier is a valid one.
pub open spec fn spec_monitor_output(monitor_id: i64) -> Option<OutputId> {
    if monitor_id >= 0 {
        Some(OutputId(monitor_id as u64))
    } else {
        None
    }
}

pub fn monitor_output(monitor_id: i64) -> (output: Option<OutputId>)
    ensures
        output == spec_monitor_output(monitor_id),
{
    if monitor_id >= 0 {
        Some(OutputId(monitor_id as u64))
    } else {
        None
    }
}

/// Resolution and timing of a display mode, as the kernel describes it. The
/// 32-byte mode name is packed into four words, first bytes first.
#[derive(Clone, Copy, Debug, PartialEq, Eq, Structural)]
pub struct DisplayMode {
    pub clock: u32,
    pub hdisplay: u16,
    pub hsync_start: u16,
    pub hsync_end: u16,
    pub htotal: u16,
    pub hskew: u16,
    pub vdisplay: u16,
    pub vsync_start: u16,
    pub vsync_end: u16,
    pub vtotal: u16,
    pub vscan: u16,
    pub vrefresh: u32,
    pub flags: u32,
    pub mode_type: u32,
    pub name0: u64,
    pub name1: u64,
    pub name2: u64,
    pub name3: u64,
}

/// A connected output as the KMS scan finds it: which CRTC drives which
/// connector in which mode, and whether variable refresh is on.
#[derive(Clone, Copy, Debug, PartialEq, Eq, Structural)]
pub struct ConnectedOutput {
    pub id: OutputId,
    pub crtc: u32,
    pub mode: DisplayMode,
    pub connector: u32,
    pub vrr_enabled: bool,
}

/// Whether a connected output is driven differently from how it is scanned out.
pub open spec fn scanout_differs(output: ConnectedOutput, scanout: ConnectedOutput) -> bool {
    scanout.crtc != output.crtc || scanout.mode != output.mode || scanout.connector != output.connector
        || scanout.vrr_enabled != output.vrr_enabled
}

/// The first scanout of `output`, if any.
pub open spec fn first_scanout(scanouts: Seq<ConnectedOutput>, output: OutputId, i: int) -> bool {
    &&& 0 <= i < scanouts.len()
    &&& scanouts[i].id == output
    &&& forall|j: int| 0 <= j < i ==> #[trigger] scanouts[j].id != output
}

/// Whether a connected output has no scanout, or its first scanout drives
/// it differently.
pub open spec fn output_changed(output: ConnectedOutput, scanouts: Seq<ConnectedOutput>) -> bool {
    ||| forall|i: int| 0 <= i < scanouts.len() ==> #[trigger] scanouts[i].id != output.id
    ||| exists|i: int| first_scanout(scanouts, output.id, i) && scanout_differs(output, #[trigger] scanouts[i])
}

fn mode_differs(a: &DisplayMode, b: &DisplayMode) -> (differs: bool)
    ensures
        differs == (*a != *b),
{
    a.clock != b.clock || a.hdisplay != b.hdisplay || a.hsync_start != b.hsync_start || a.hsync_end != b.hsync_end
        || a.htotal != b.htotal || a.hskew != b.hskew || a.vdisplay != b.vdisplay || a.vsync_start
        != b.vsync_start || a.vsync_end != b.vsync_end || a.vtotal != b.vtotal || a.vscan != b.vscan
        || a.vrefresh != b.vrefresh || a.flags != b.flags || a.mode_type != b.mode_type || a.name0 != b.name0
        || a.name1 != b.name1 || a.name2 != b.name2 || a.name3 != b.name3
}

fn single_output_changed(output: &ConnectedOutput, scanouts: &Vec<ConnectedOutput>) -> (changed: bool)
    ensures
        changed == output_changed(*output, scanouts@),
{
    let mut i: usize = 0;
    while i < scanouts.len()
        invariant
            i <= scanouts@.len(),
            forall|j: int| 0 <= j < i ==> #[trigger] scanouts@[j].id != output.id,
        decreases scanouts@.len() - i,
    {
        let scanout = &scanouts[i];
        if scanout.id.0 == output.id.0 {
            assert(first_scanout(scanouts@, output.id, i as int));
            let differs = scanout.crtc != output.crtc || mode_differs(&scanout.mode, &output.mode)
                || scanout.connector != output.connector || scanout.vrr_enabled != output.vrr_enabled;
            proof {
                if !differs && output_changed(*output, scanouts@) {
                    assert(scanouts@[i as int].id == output.id);
                    let k = choose|k: int| first_scanout(scanouts@, output.id, k) && scanout_differs(*output, #[trigger] scanouts@[k]);
                    if k < i {
                        assert(scanouts@[k].id != output.id);
                    } else if k > i {
                        assert(scanouts@[i as int].id != output.id);
                    }
                }
            }
            return differs;
        }
        i = i + 1;
    }
    true
}

/// Whether some connected output is new or driven differently from its
/// scanout.
pub fn output_properties_changed(outputs: &Vec<ConnectedOutput>, scanouts: &Vec<ConnectedOutput>) -> (changed: bool)
    ensures
        changed == exists|i: int| 0 <= i < outputs@.len() && output_changed(#[trigger] outputs@[i], scanouts@),
{
    let mut i: usize = 0;
    while i < outputs.len()
        invariant
            i <= outputs@.len(),
            forall|j: int| 0 <= j < i ==> !output_changed(#[trigger] outputs@[j], scanouts@),
        decreases outputs@.len() - i,
    {
        if single_output_changed(&outputs[i], scanouts) {
            return true;
        }
        i = i + 1;
    }
    false
}

/// Whether the connected outputs differ from the scanouts in number or in
/// how any of them is driven.
pub fn output_hardware_changed(outputs: &Vec<ConnectedOutput>, scanouts: &Vec<ConnectedOutput>) -> (changed: bool)
    ensures
        changed == (outputs@.len() != scanouts@.len()
            || exists|i: int| 0 <= i < outputs@.len() && output_changed(#[trigger] outputs@[i], scanouts@)),
{
    outputs.len() != scanouts.len() || output_properties_changed(outputs, scanouts)
}

/// An output counts as changed exactly when no scanout shows it, or when its
/// first scanout drives it on another CRTC, in another mode, on another
/// connector, or with variable refresh switched the other way; so
/// `output_properties_changed` reports a change as soon as one output differs
/// in any of these.
pub proof fn law_output_change_covers_every_property(outputs: Seq<ConnectedOutput>, scanouts: Seq<ConnectedOutput>, i: int, k: int)
    requires
        0 <= i < outputs.len(),
        0 <= k < scanouts.len(),
        scanouts[k].id == outputs[i].id,
        forall|j: int| 0 <= j < k ==> #[trigger] scanouts[j].id != outputs[i].id,
    ensures
        output_changed(outputs[i], scanouts) <==> (scanouts[k].crtc != outputs[i].crtc || scanouts[k].mode
            != outputs[i].mode || scanouts[k].connector != outputs[i].connector || scanouts[k].vrr_enabled
            != outputs[i].vrr_enabled),
        scanouts[k].vrr_enabled != outputs[i].vrr_enabled ==> exists|j: int|
            0 <= j < outputs.len() && output_changed(#[trigger] outputs[j], scanouts),
{
    let output = outputs[i];
    assert(first_scanout(scanouts, output.id, k));
    if output_changed(output, scanouts) {
        if forall|j: int| 0 <= j < scanouts.len() ==> #[trigger] scanouts[j].id != output.id {
            assert(scanouts[k].id != output.id);
        } else {
            let m = choose|m: int| first_scanout(scanouts, output.id, m) && scanout_differs(output, #[trigger] scanouts[m]);
            if m < k {
                assert(scanouts[m].id != output.id);
            } else if m > k {
                assert(scanouts[k].id != output.id);
            }
        }
    }
}

/// An output with no scanout at all always counts as changed.
pub proof fn law_unscanned_output_changed(output: ConnectedOutput, scanouts: Seq<ConnectedOutput>)
    requires
        forall|j: int| 0 <= j < scanouts.len() ==> #[trigger] scanouts[j].id != output.id,
    ensures
        output_changed(output, scanouts),
{
}

} // verus!
