//! State of the `wlr-gamma-control-unstable-v1` protocol: which client owns
//! the gamma table of each output, which tables are being read, and which
//! changes wait for the DRM gamma controller.
//!
//! Protocol objects are named by their protocol object identifier and event
//! loop registrations by a token; the caller owns both and acts on what each
//! operation returns.

use vstd::prelude::*;

use crate::gamma_lut::{u16_in, ByteOrder};
use crate::topology::OutputId;
use crate::vec_map::{
    keys_distinct, keys_increasing, lemma_insert_keeps_increasing, lemma_seq_map_absent, lemma_seq_map_index,
    lemma_seq_map_insert, lemma_seq_map_push, lemma_seq_map_remove, lemma_seq_map_update, seq_map, VecMap,
};

verus! {

/// A pending table change: a client ramp, or `None` to drop the client layer.
pub open spec fn ramp_view(ramp: Option<Vec<u16>>) -> Option<Seq<u16>> {
    match ramp {
        Some(ramp) => Some(ramp@),
        None => None,
    }
}

pub open spec fn ramp_entries(entries: Seq<(OutputId, Option<Vec<u16>>)>) -> Seq<(u64, Option<Seq<u16>>)> {
    entries.map_values(|entry: (OutputId, Option<Vec<u16>>)| (entry.0.0, ramp_view(entry.1)))
}

/// Gamma ramps keyed by output, at most one per output; `None` marks an
/// output whose ramp was dropped.
pub struct RampTable {
    entries: Vec<(OutputId, Option<Vec<u16>>)>,
}

impl View for RampTable {
    type V = Map<u64, Option<Seq<u16>>>;

    closed spec fn view(&self) -> Map<u64, Option<Seq<u16>>> {
        seq_map(ramp_entries(self.entries@))
    }
}

impl RampTable {
    /// Entries are kept in increasing order of output.
    pub closed spec fn wf(&self) -> bool {
        &&& keys_distinct(ramp_entries(self.entries@))
        &&& keys_increasing(ramp_entries(self.entries@))
    }

    pub fn new() -> (pending: RampTable)
        ensures
            pending.wf(),
            pending@ == Map::<u64, Option<Seq<u16>>>::empty(),
    {
        let pending = RampTable { entries: Vec::new() };
        assert(pending@ =~= Map::<u64, Option<Seq<u16>>>::empty());
        pending
    }

    fn find(&self, output: OutputId) -> (index: Option<usize>)
        ensures
            match index {
                Some(i) => i < self.entries@.len() && ramp_entries(self.entries@)[i as int].0 == output.0,
                None => forall|i: int| 0 <= i < self.entries@.len() ==> #[trigger] ramp_entries(self.entries@)[i].0 != output.0,
            },
    {
        let mut i: usize = 0;
        while i < self.entries.len()
            invariant
                i <= self.entries@.len(),
                forall|j: int| 0 <= j < i ==> #[trigger] ramp_entries(self.entries@)[j].0 != output.0,
            decreases self.entries@.len() - i,
        {
            if self.entries[i].0.0 == output.0 {
                return Some(i);
            }
            i = i + 1;
        }
        None
    }

    /// The ramp recorded for an output, if any.
    pub fn get(&self, output: OutputId) -> (ramp: Option<&Option<Vec<u16>>>)
        requires
            self.wf(),
        ensures
            match ramp {
                Some(ramp) => self@.contains_key(output.0) && self@[output.0] == ramp_view(*ramp),
                None => !self@.contains_key(output.0),
            },
    {
        match self.find(output) {
            Some(i) => {
                proof {
                    lemma_seq_map_index(ramp_entries(self.entries@), i as int);
                }
                Some(&self.entries[i].1)
            },
            None => {
                proof {
                    lemma_seq_map_absent(ramp_entries(self.entries@), output.0);
                }
                None
            },
        }
    }

    /// Records the latest ramp for an output, replacing an earlier one.
    pub fn insert(&mut self, output: OutputId, ramp: Option<Vec<u16>>)
        requires
            old(self).wf(),
        ensures
            final(self).wf(),
            final(self)@ == old(self)@.insert(output.0, ramp_view(ramp)),
    {
        let ghost entry_view = (output.0, ramp_view(ramp));
        match self.find(output) {
            Some(i) => {
                proof {
                    let s = ramp_entries(self.entries@);
                    lemma_seq_map_update(s, i as int, ramp_view(ramp));
                }
                self.entries.set(i, (output, ramp));
                proof {
                    assert(ramp_entries(self.entries@) =~= ramp_entries(old(self).entries@).update(i as int, entry_view));
                    let t = ramp_entries(self.entries@);
                    let s = ramp_entries(old(self).entries@);
                    assert forall|a: int, b: int| 0 <= a < b < t.len() implies #[trigger] t[a].0 < #[trigger] t[b].0 by {
                        assert(t[a].0 == s[a].0 && t[b].0 == s[b].0);
                    }
                }
            },
            None => {
                let mut pos: usize = 0;
                while pos < self.entries.len() && self.entries[pos].0.0 < output.0
                    invariant
                        self.entries@ == old(self).entries@,
                        pos <= self.entries@.len(),
                        forall|j: int| 0 <= j < pos ==> #[trigger] ramp_entries(self.entries@)[j].0 < output.0,
                    decreases self.entries@.len() - pos,
                {
                    pos = pos + 1;
                }
                proof {
                    let s = ramp_entries(self.entries@);
                    lemma_seq_map_absent(s, output.0);
                    lemma_seq_map_insert(s, pos as int, output.0, ramp_view(ramp));
                    assert forall|j: int| pos <= j < s.len() implies #[trigger] s[j].0 > output.0 by {
                        if j > pos {
                            assert(s[pos as int].0 < s[j].0);
                        }
                    }
                    lemma_insert_keeps_increasing(s, pos as int, output.0, ramp_view(ramp));
                }
                self.entries.insert(pos, (output, ramp));
                proof {
                    assert(ramp_entries(self.entries@) =~= ramp_entries(old(self).entries@).insert(pos as int, entry_view));
                }
            },
        }
    }

    /// Forgets any ramp recorded for an output.
    pub fn remove(&mut self, output: OutputId)
        requires
            old(self).wf(),
        ensures
            final(self).wf(),
            final(self)@ == old(self)@.remove(output.0),
    {
        match self.find(output) {
            Some(i) => {
                proof {
                    lemma_seq_map_remove(ramp_entries(self.entries@), i as int);
                }
                self.entries.remove(i);
                proof {
                    assert(ramp_entries(self.entries@) =~= ramp_entries(old(self).entries@).remove(i as int));
                    let t = ramp_entries(self.entries@);
                    let s = ramp_entries(old(self).entries@);
                    assert forall|a: int, b: int| 0 <= a < b < t.len() implies #[trigger] t[a].0 < #[trigger] t[b].0 by {
                        let sa = if a < i { a } else { a + 1 };
                        let sb = if b < i { b } else { b + 1 };
                        assert(t[a] == s[sa] && t[b] == s[sb]);
                    }
                }
            },
            None => {
                proof {
                    lemma_seq_map_absent(ramp_entries(self.entries@), output.0);
                    assert(self@.remove(output.0) =~= self@);
                }
            },
        }
    }

    /// Hands out every recorded ramp, each output once, leaving none.
    pub fn take_all(&mut self) -> (changes: Vec<(OutputId, Option<Vec<u16>>)>)
        requires
            old(self).wf(),
        ensures
            final(self).wf(),
            final(self)@ == Map::<u64, Option<Seq<u16>>>::empty(),
            keys_distinct(ramp_entries(changes@)),
            keys_increasing(ramp_entries(changes@)),
            seq_map(ramp_entries(changes@)) == old(self)@,
    {
        let mut changes: Vec<(OutputId, Option<Vec<u16>>)> = Vec::new();
        std::mem::swap(&mut changes, &mut self.entries);
        assert(self@ =~= Map::<u64, Option<Seq<u16>>>::empty());
        changes
    }
}

/// The protocol state of client gamma control.
pub struct GammaControlManager {
    capabilities: VecMap<u64, u32>,
    controls: VecMap<u64, u64>,
    reads: VecMap<u64, u64>,
    pending: RampTable,
}

pub struct GammaControlView {
    /// Gamma table size of each output whose table clients may set.
    pub capabilities: Map<u64, u32>,
    /// The protocol object controlling each output's table.
    pub controls: Map<u64, u64>,
    /// The event source reading a table that is still arriving.
    pub reads: Map<u64, u64>,
    /// Changes not yet handed to the DRM controller.
    pub pending: Map<u64, Option<Seq<u16>>>,
}

impl View for GammaControlManager {
    type V = GammaControlView;

    closed spec fn view(&self) -> GammaControlView {
        GammaControlView {
            capabilities: self.capabilities@,
            controls: self.controls@,
            reads: self.reads@,
            pending: self.pending@,
        }
    }
}

impl GammaControlView {
    pub open spec fn is_current(self, output: OutputId, resource: u64) -> bool {
        self.controls.contains_key(output.0) && self.controls[output.0] == resource
    }

    /// The state after an output's control is failed: its read, its pending
    /// change and its control are gone.
    pub open spec fn failed(self, output: OutputId) -> GammaControlView {
        GammaControlView {
            capabilities: self.capabilities,
            controls: self.controls.remove(output.0),
            reads: self.reads.remove(output.0),
            pending: self.pending.remove(output.0),
        }
    }

    /// The state after an output's control stops: its client layer is dropped.
    pub open spec fn released(self, output: OutputId) -> GammaControlView {
        GammaControlView {
            capabilities: self.capabilities,
            controls: self.controls.remove(output.0),
            reads: self.reads.remove(output.0),
            pending: self.pending.insert(output.0, None),
        }
    }

    pub open spec fn lookup(map: Map<u64, u64>, output: OutputId) -> Option<u64> {
        if map.contains_key(output.0) {
            Some(map[output.0])
        } else {
            None
        }
    }
}

/// The published table sizes as entries keyed by raw output identifier.
pub open spec fn capability_entries(capabilities: Seq<(OutputId, u32)>) -> Seq<(u64, u32)> {
    capabilities.map_values(|entry: (OutputId, u32)| (entry.0.0, entry.1))
}

/// Whether an output's usable table size differs between two publications,
/// appearing or disappearing included.
pub open spec fn capability_changed(before: Map<u64, u32>, after: Map<u64, u32>, raw: u64) -> bool {
    before.contains_key(raw) != after.contains_key(raw)
        || (before.contains_key(raw) && after.contains_key(raw) && before[raw] != after[raw])
}

/// Whether one of the first `count` entries carries the key `raw`.
pub open spec fn visited<V>(entries: Seq<(u64, V)>, count: int, raw: u64) -> bool {
    exists|j: int| 0 <= j < count && #[trigger] entries[j].0 == raw
}

/// What the caller does for a control that lost its output's table.
#[derive(Clone, Copy, Debug, PartialEq, Eq, Structural)]
pub struct FailedGammaControl {
    /// The event source that was reading a table, to remove.
    pub cancelled_read: Option<u64>,
    /// The protocol object to send `failed` to.
    pub resource: Option<u64>,
}

/// How a `set_gamma` request proceeds.
#[derive(Clone, Copy, Debug, PartialEq, Eq, Structural)]
pub enum GammaReadStart {
    /// The object no longer controls the output; the request is ignored.
    Ignored,
    /// The table size overflows; the data is rejected with a protocol error.
    SizeOverflow { cancelled_read: Option<u64> },
    /// Read exactly this many bytes of table data.
    Read { expected: usize, cancelled_read: Option<u64> },
}

impl GammaControlManager {
    pub closed spec fn wf(&self) -> bool {
        &&& self.capabilities.wf()
        &&& self.controls.wf()
        &&& self.reads.wf()
        &&& self.pending.wf()
    }

    pub fn new() -> (manager: GammaControlManager)
        ensures
            manager.wf(),
            manager@ == (GammaControlView {
                capabilities: Map::empty(),
                controls: Map::empty(),
                reads: Map::empty(),
                pending: Map::empty(),
            }),
    {
        GammaControlManager {
            capabilities: VecMap::new(),
            controls: VecMap::new(),
            reads: VecMap::new(),
            pending: RampTable::new(),
        }
    }

    /// The gamma table size clients may use on an output.
    pub fn capability(&self, output: OutputId) -> (size: Option<u32>)
        requires
            self.wf(),
        ensures
            size == (if self@.capabilities.contains_key(output.0) {
                Some(self@.capabilities[output.0])
            } else {
                None::<u32>
            }),
    {
        self.capabilities.get(&output.0)
    }

    /// The table size a new control object records for its output: the
    /// output's usable size, or zero when the output is unknown or has none.
    pub fn control_size(&self, output: Option<OutputId>) -> (size: u32)
        requires
            self.wf(),
        ensures
            size == (match output {
                Some(output) if self@.capabilities.contains_key(output.0) => self@.capabilities[output.0],
                _ => 0,
            }),
    {
        match output {
            Some(output) => match self.capabilities.get(&output.0) {
                Some(size) => size,
                None => 0,
            },
            None => 0,
        }
    }

    /// Admits a new gamma control object: it gets the output's table when the
    /// output is known, exposes a usable table, and has no other controller.
    /// Returns the table size to advertise, or `None` when the object fails.
    pub fn register_gamma_control(&mut self, output: Option<OutputId>, resource: u64) -> (size: Option<u32>)
        requires
            old(self).wf(),
        ensures
            final(self).wf(),
            match output {
                Some(output) if old(self)@.capabilities.contains_key(output.0) && !old(self)@.controls.contains_key(output.0) => {
                    &&& size == Some(old(self)@.capabilities[output.0])
                    &&& final(self)@ == (GammaControlView {
                        controls: old(self)@.controls.insert(output.0, resource),
                        ..old(self)@
                    })
                },
                _ => size is None && final(self)@ == old(self)@,
            },
    {
        let Some(output) = output else {
            return None;
        };
        let Some(size) = self.capabilities.get(&output.0) else {
            return None;
        };
        if self.controls.contains_key(&output.0) {
            return None;
        }
        self.controls.insert(output.0, resource);
        Some(size)
    }

    pub fn gamma_control_is_current(&self, output: OutputId, resource: u64) -> (current: bool)
        requires
            self.wf(),
        ensures
            current == self@.is_current(output, resource),
    {
        match self.controls.get(&output.0) {
            Some(current) => current == resource,
            None => false,
        }
    }

    /// Stops reading an output's table, returning the event source to remove.
    pub fn cancel_gamma_read(&mut self, output: OutputId) -> (cancelled: Option<u64>)
        requires
            old(self).wf(),
        ensures
            final(self).wf(),
            cancelled == GammaControlView::lookup(old(self)@.reads, output),
            final(self)@ == (GammaControlView { reads: old(self)@.reads.remove(output.0), ..old(self)@ }),
    {
        self.reads.remove(&output.0)
    }

    /// A destroyed control releases its output, dropping the client layer.
    /// Returns `None` when the object no longer controlled the output, else
    /// the event source to remove, if one was reading.
    pub fn unregister_gamma_control(&mut self, output: OutputId, resource: u64) -> (released: Option<Option<u64>>)
        requires
            old(self).wf(),
        ensures
            final(self).wf(),
            if old(self)@.is_current(output, resource) {
                &&& released == Some(GammaControlView::lookup(old(self)@.reads, output))
                &&& final(self)@ == old(self)@.released(output)
            } else {
                released is None && final(self)@ == old(self)@
            },
    {
        if !self.gamma_control_is_current(output, resource) {
            return None;
        }
        let cancelled = self.cancel_gamma_read(output);
        self.controls.remove(&output.0);
        self.pending.insert(output, None);
        Some(cancelled)
    }

    /// Fails an output's control: forgets its read, its pending change and the
    /// controlling object, which the caller sends `failed`.
    pub fn fail_gamma_control(&mut self, output: OutputId) -> (failed: FailedGammaControl)
        requires
            old(self).wf(),
        ensures
            final(self).wf(),
            failed == (FailedGammaControl {
                cancelled_read: GammaControlView::lookup(old(self)@.reads, output),
                resource: GammaControlView::lookup(old(self)@.controls, output),
            }),
            final(self)@ == old(self)@.failed(output),
    {
        let cancelled_read = self.cancel_gamma_read(output);
        self.pending.remove(output);
        let resource = self.controls.remove(&output.0);
        FailedGammaControl { cancelled_read, resource }
    }

    /// Invalid table data: while the object still controls the output, the
    /// control is released and the client layer dropped. The caller posts
    /// the protocol error in every case. Returns whether the state changed.
    pub fn reject_gamma_data(&mut self, output: OutputId, resource: u64) -> (released: bool)
        requires
            old(self).wf(),
        ensures
            final(self).wf(),
            released == old(self)@.is_current(output, resource),
            released ==> final(self)@ == old(self)@.released(output),
            !released ==> final(self)@ == old(self)@,
    {
        if self.gamma_control_is_current(output, resource) {
            self.reads.remove(&output.0);
            self.controls.remove(&output.0);
            self.pending.insert(output, None);
            true
        } else {
            false
        }
    }

    /// Begins a `set_gamma` request of the object that claims `size` entries.
    pub fn begin_gamma_read(&mut self, output: OutputId, size: u32, resource: u64) -> (start: GammaReadStart)
        requires
            old(self).wf(),
        ensures
            final(self).wf(),
            !old(self)@.is_current(output, resource) ==> start == GammaReadStart::Ignored && final(self)@ == old(self)@,
            old(self)@.is_current(output, resource) && size as int * 6 > usize::MAX ==> start == (GammaReadStart::SizeOverflow {
                cancelled_read: GammaControlView::lookup(old(self)@.reads, output),
            }) && final(self)@ == old(self)@.released(output),
            old(self)@.is_current(output, resource) && size as int * 6 <= usize::MAX ==> start == (GammaReadStart::Read {
                expected: (size as int * 6) as usize,
                cancelled_read: GammaControlView::lookup(old(self)@.reads, output),
            }) && final(self)@ == (GammaControlView { reads: old(self)@.reads.remove(output.0), ..old(self)@ }),
    {
        if !self.gamma_control_is_current(output, resource) {
            return GammaReadStart::Ignored;
        }
        let cancelled_read = self.cancel_gamma_read(output);
        let entries = (size as usize).checked_mul(3);
        let expected = match entries {
            Some(entries) => entries.checked_mul(2),
            None => None,
        };
        match expected {
            Some(expected) => GammaReadStart::Read { expected, cancelled_read },
            None => {
                self.reject_gamma_data(output, resource);
                proof {
                    assert(self@.reads =~= old(self)@.reads.remove(output.0));
                }
                GammaReadStart::SizeOverflow { cancelled_read }
            },
        }
    }

    /// Remembers the event source reading an output's table.
    pub fn track_gamma_read(&mut self, output: OutputId, token: u64)
        requires
            old(self).wf(),
        ensures
            final(self).wf(),
            final(self)@ == (GammaControlView { reads: old(self)@.reads.insert(output.0, token), ..old(self)@ }),
    {
        self.reads.insert(output.0, token);
    }

    /// A table that arrived at once is the output's pending change.
    pub fn accept_gamma_table(&mut self, output: OutputId, ramp: Vec<u16>)
        requires
            old(self).wf(),
        ensures
            final(self).wf(),
            final(self)@ == (GammaControlView {
                pending: old(self)@.pending.insert(output.0, Some(ramp@)),
                ..old(self)@
            }),
    {
        self.pending.insert(output, Some(ramp));
    }

    /// A table that finished arriving later: its read is over, and it becomes
    /// the pending change if the object still controls the output.
    pub fn complete_gamma_read(&mut self, output: OutputId, resource: u64, ramp: Vec<u16>)
        requires
            old(self).wf(),
        ensures
            final(self).wf(),
            final(self)@ == (GammaControlView {
                reads: old(self)@.reads.remove(output.0),
                pending: if old(self)@.is_current(output, resource) {
                    old(self)@.pending.insert(output.0, Some(ramp@))
                } else {
                    old(self)@.pending
                },
                ..old(self)@
            }),
    {
        self.reads.remove(&output.0);
        if self.gamma_control_is_current(output, resource) {
            self.pending.insert(output, Some(ramp));
        }
    }

    /// Publishes which outputs expose a usable table, and at what size. Every
    /// control whose output's size changed or disappeared fails; the failures
    /// come back with their outputs, each output once.
    pub fn set_gamma_capabilities(&mut self, capabilities: Vec<(OutputId, u32)>) -> (failed: Vec<(OutputId, FailedGammaControl)>)
        requires
            old(self).wf(),
            keys_distinct(capability_entries(capabilities@)),
        ensures
            final(self).wf(),
            final(self)@.capabilities == seq_map(capability_entries(capabilities@)),
            forall|raw: u64| #[trigger] final(self)@.controls.contains_key(raw) == (old(self)@.controls.contains_key(raw)
                && !capability_changed(old(self)@.capabilities, final(self)@.capabilities, raw)),
            forall|raw: u64| #[trigger] final(self)@.controls.contains_key(raw) ==> final(self)@.controls[raw] == old(self)@.controls[raw],
            forall|raw: u64| #[trigger] final(self)@.reads.contains_key(raw) == (old(self)@.reads.contains_key(raw)
                && !(old(self)@.controls.contains_key(raw) && capability_changed(old(self)@.capabilities, final(self)@.capabilities, raw))),
            forall|raw: u64| #[trigger] final(self)@.reads.contains_key(raw) ==> final(self)@.reads[raw] == old(self)@.reads[raw],
            forall|raw: u64| #[trigger] final(self)@.pending.contains_key(raw) == (old(self)@.pending.contains_key(raw)
                && !(old(self)@.controls.contains_key(raw) && capability_changed(old(self)@.capabilities, final(self)@.capabilities, raw))),
            forall|raw: u64| #[trigger] final(self)@.pending.contains_key(raw) ==> final(self)@.pending[raw] == old(self)@.pending[raw],
            forall|k: int| 0 <= k < failed@.len() ==> {
                let output = (#[trigger] failed@[k]).0;
                &&& old(self)@.controls.contains_key(output.0)
                &&& capability_changed(old(self)@.capabilities, final(self)@.capabilities, output.0)
                &&& failed@[k].1 == (FailedGammaControl {
                    cancelled_read: GammaControlView::lookup(old(self)@.reads, output),
                    resource: GammaControlView::lookup(old(self)@.controls, output),
                })
            },
            forall|raw: u64| old(self)@.controls.contains_key(raw)
                && capability_changed(old(self)@.capabilities, final(self)@.capabilities, raw)
                ==> exists|k: int| 0 <= k < failed@.len() && (#[trigger] failed@[k]).0.0 == raw,
            forall|k: int, l: int| 0 <= k < l < failed@.len() ==> (#[trigger] failed@[k]).0.0 != (#[trigger] failed@[l]).0.0,
    {
        let ghost start = self@;
        let controls = self.controls.entries();
        let mut published: VecMap<u64, u32> = VecMap::new();
        let mut c: usize = 0;
        while c < capabilities.len()
            invariant
                published.wf(),
                c <= capabilities@.len(),
                keys_distinct(capability_entries(capabilities@)),
                published@ == seq_map(capability_entries(capabilities@).subrange(0, c as int)),
            decreases capabilities@.len() - c,
        {
            let (output, size) = capabilities[c];
            proof {
                let all = capability_entries(capabilities@);
                let prefix = all.subrange(0, c as int);
                assert(keys_distinct(prefix));
                assert(!seq_map(prefix).contains_key(output.0)) by {
                    if seq_map(prefix).contains_key(output.0) {
                        let j = choose|j: int| 0 <= j < prefix.len() && #[trigger] prefix[j].0 == output.0;
                        assert(all[j].0 == all[c as int].0);
                    }
                }
                lemma_seq_map_push(prefix, output.0, size);
                assert(all.subrange(0, c + 1) =~= prefix.push((output.0, size)));
            }
            published.insert(output.0, size);
            c = c + 1;
        }
        proof {
            let all = capability_entries(capabilities@);
            assert(all.subrange(0, capabilities@.len() as int) =~= all);
        }
        let mut failed: Vec<(OutputId, FailedGammaControl)> = Vec::new();
        let mut i: usize = 0;
        proof {
            self.controls.lemma_view();
        }
        while i < controls.len()
            invariant
                self.wf(),
                published.wf(),
                keys_distinct(controls@),
                seq_map(controls@) == start.controls,
                self@.capabilities == start.capabilities,
                i <= controls@.len(),
                forall|raw: u64| #[trigger] self@.controls.contains_key(raw) == (start.controls.contains_key(raw)
                    && !(visited(controls@, i as int, raw) && capability_changed(start.capabilities, published@, raw))),
                forall|raw: u64| #[trigger] self@.controls.contains_key(raw) ==> self@.controls[raw] == start.controls[raw],
                forall|raw: u64| #[trigger] self@.reads.contains_key(raw) == (start.reads.contains_key(raw)
                    && !(visited(controls@, i as int, raw) && capability_changed(start.capabilities, published@, raw))),
                forall|raw: u64| #[trigger] self@.reads.contains_key(raw) ==> self@.reads[raw] == start.reads[raw],
                forall|raw: u64| #[trigger] self@.pending.contains_key(raw) == (start.pending.contains_key(raw)
                    && !(visited(controls@, i as int, raw) && capability_changed(start.capabilities, published@, raw))),
                forall|raw: u64| #[trigger] self@.pending.contains_key(raw) ==> self@.pending[raw] == start.pending[raw],
                forall|k: int| 0 <= k < failed@.len() ==> {
                    let output = (#[trigger] failed@[k]).0;
                    &&& visited(controls@, i as int, output.0)
                    &&& start.controls.contains_key(output.0)
                    &&& capability_changed(start.capabilities, published@, output.0)
                    &&& failed@[k].1 == (FailedGammaControl {
                        cancelled_read: GammaControlView::lookup(start.reads, output),
                        resource: GammaControlView::lookup(start.controls, output),
                    })
                },
                forall|j: int| 0 <= j < i && capability_changed(start.capabilities, published@, (#[trigger] controls@[j]).0)
                    ==> exists|k: int| 0 <= k < failed@.len() && (#[trigger] failed@[k]).0.0 == controls@[j].0,
                forall|k: int, l: int| 0 <= k < l < failed@.len() ==> (#[trigger] failed@[k]).0.0 != (#[trigger] failed@[l]).0.0,
            decreases controls@.len() - i,
        {
            let output = OutputId(controls[i].0);
            proof {
                lemma_seq_map_index(controls@, i as int);
                assert(!visited(controls@, i as int, output.0)) by {
                    if visited(controls@, i as int, output.0) {
                        let j = choose|j: int| 0 <= j < i && #[trigger] controls@[j].0 == output.0;
                        assert(controls@[j].0 != controls@[i as int].0);
                    }
                }
            }
            let before = self.capabilities.get(&output.0);
            let after = published.get(&output.0);
            let changed = match (before, after) {
                (Some(a), Some(b)) => a != b,
                (None, None) => false,
                _ => true,
            };
            let ghost failed_before = failed@;
            if changed {
                let failure = self.fail_gamma_control(output);
                failed.push((output, failure));
                proof {
                    assert(failed@[failed_before.len() as int].0 == output);
                    assert forall|k: int, l: int| 0 <= k < l < failed@.len() implies
                        (#[trigger] failed@[k]).0.0 != (#[trigger] failed@[l]).0.0 by {
                        if l == failed_before.len() {
                            assert(failed@[k] == failed_before[k]);
                            assert(visited(controls@, i as int, failed@[k].0.0));
                        }
                    }
                }
            }
            proof {
                assert forall|raw: u64| visited(controls@, i + 1, raw) == (visited(controls@, i as int, raw) || raw == output.0) by {
                    if raw == output.0 {
                        assert(controls@[i as int].0 == raw);
                    }
                    if visited(controls@, i + 1, raw) && raw != output.0 {
                        let j = choose|j: int| 0 <= j < i + 1 && #[trigger] controls@[j].0 == raw;
                        assert(0 <= j < i);
                    }
                }
                assert forall|k: int| 0 <= k < failed@.len() implies visited(controls@, i + 1, (#[trigger] failed@[k]).0.0) by {
                    if k < failed_before.len() {
                        assert(failed@[k] == failed_before[k]);
                    }
                }
                assert forall|j: int| 0 <= j < i + 1 && capability_changed(start.capabilities, published@, (#[trigger] controls@[j]).0)
                    implies exists|k: int| 0 <= k < failed@.len() && (#[trigger] failed@[k]).0.0 == controls@[j].0 by {
                    if j == i {
                        assert(failed@[failed_before.len() as int].0.0 == controls@[j].0);
                    } else {
                        let k = choose|k: int| 0 <= k < failed_before.len() && (#[trigger] failed_before[k]).0.0 == controls@[j].0;
                        assert(failed@[k] == failed_before[k]);
                    }
                }
            }
            i = i + 1;
        }
        let ghost mid = self@;
        self.capabilities = published;
        assert(self@.controls == mid.controls);
        assert(self@.reads == mid.reads);
        assert(self@.pending == mid.pending);
        proof {
            assert forall|raw: u64| start.controls.contains_key(raw) implies visited(controls@, controls@.len() as int, raw) by {
                let j = choose|j: int| 0 <= j < controls@.len() && #[trigger] controls@[j].0 == raw;
                assert(controls@[j].0 == raw);
            }
            assert forall|raw: u64| start.controls.contains_key(raw)
                && capability_changed(start.capabilities, self@.capabilities, raw)
                implies exists|k: int| 0 <= k < failed@.len() && (#[trigger] failed@[k]).0.0 == raw by {
                let j = choose|j: int| 0 <= j < controls@.len() && #[trigger] controls@[j].0 == raw;
                assert(controls@[j].0 == raw);
            }
        }
        failed
    }

    /// Hands the pending changes to the DRM controller, each output once.
    pub fn take_gamma_changes(&mut self) -> (changes: Vec<(OutputId, Option<Vec<u16>>)>)
        requires
            old(self).wf(),
        ensures
            final(self).wf(),
            keys_distinct(ramp_entries(changes@)),
            keys_increasing(ramp_entries(changes@)),
            seq_map(ramp_entries(changes@)) == old(self)@.pending,
            final(self)@ == (GammaControlView { pending: Map::empty(), ..old(self)@ }),
    {
        self.pending.take_all()
    }

    /// The DRM controller could not apply a client table: fail its control.
    pub fn gamma_control_failed(&mut self, output: OutputId) -> (failed: FailedGammaControl)
        requires
            old(self).wf(),
        ensures
            final(self).wf(),
            failed == (FailedGammaControl {
                cancelled_read: GammaControlView::lookup(old(self)@.reads, output),
                resource: GammaControlView::lookup(old(self)@.controls, output),
            }),
            final(self)@ == old(self)@.failed(output),
    {
        self.fail_gamma_control(output)
    }
}

/// One attempt to read table data from a client's file descriptor.
pub enum GammaChunk {
    /// Bytes were read; never more than were asked for.
    Data(Vec<u8>),
    EndOfFile,
    WouldBlock,
    Interrupted,
    Failed,
}

/// Where reading a gamma table stands after one attempt.
#[derive(Debug, PartialEq, Eq)]
pub enum GammaRead {
    /// Read again.
    Continue,
    /// No data yet; wait until the descriptor is readable.
    Pending,
    /// The whole table: three channels of native-endian entries.
    Complete(Vec<u16>),
    /// The client sent more data than its table size allows.
    TooLarge,
    /// The client closed the descriptor early.
    Truncated { received: usize, expected: usize },
    /// Reading failed.
    ReadFailed,
}

/// A client gamma table arriving through a file descriptor.
pub struct GammaPayload {
    expected: usize,
    payload: Vec<u8>,
}

/// The values of a table read in `order`, two bytes per entry.
pub open spec fn spec_gamma_table(payload: Seq<u8>, order: ByteOrder) -> Seq<u16> {
    Seq::new(payload.len() / 2, |i: int| u16_in(order, payload[2 * i], payload[2 * i + 1]))
}

impl GammaPayload {
    pub closed spec fn expected(&self) -> usize {
        self.expected
    }

    pub closed spec fn received(&self) -> Seq<u8> {
        self.payload@
    }

    pub fn new(expected: usize) -> (reader: GammaPayload)
        ensures
            reader.expected() == expected,
            reader.received() == Seq::<u8>::empty(),
    {
        GammaPayload { expected, payload: Vec::new() }
    }

    /// How many bytes to ask for next: up to one past the table, so that
    /// oversized data is noticed, at most 4096 at a time. `None` once more
    /// than the table has arrived.
    pub fn next_read_len(&self) -> (len: Option<usize>)
        ensures
            ({
                let limit = if self.expected() < usize::MAX { self.expected() + 1 } else { usize::MAX as int };
                let remaining = if limit > self.received().len() { limit - self.received().len() } else { 0 };
                &&& remaining == 0 ==> len is None
                &&& remaining > 0 ==> len == Some((if remaining < 4096 { remaining } else { 4096 }) as usize)
            }),
    {
        let limit = self.expected.saturating_add(1);
        let remaining = limit.saturating_sub(self.payload.len());
        if remaining == 0 {
            None
        } else {
            Some(if remaining < 4096 { remaining } else { 4096 })
        }
    }

    /// Takes one read attempt into account.
    pub fn accept(&mut self, chunk: GammaChunk, order: ByteOrder) -> (read: GammaRead)
        ensures
            final(self).expected() == old(self).expected(),
            match chunk {
                GammaChunk::Data(bytes) => read == GammaRead::Continue && final(self).received()
                    == old(self).received() + bytes@,
                GammaChunk::EndOfFile => final(self).received() == old(self).received() && if old(self).received().len()
                    == old(self).expected() {
                    read matches GammaRead::Complete(table) && table@ == spec_gamma_table(old(self).received(), order)
                } else {
                    read == (GammaRead::Truncated {
                        received: old(self).received().len() as usize,
                        expected: old(self).expected(),
                    })
                },
                GammaChunk::WouldBlock => read == GammaRead::Pending && final(self).received() == old(self).received(),
                GammaChunk::Interrupted => read == GammaRead::Continue && final(self).received() == old(self).received(),
                GammaChunk::Failed => read == GammaRead::ReadFailed && final(self).received() == old(self).received(),
            },
    {
        match chunk {
            GammaChunk::Data(bytes) => {
                let mut i: usize = 0;
                let ghost before = self.payload@;
                while i < bytes.len()
                    invariant
                        i <= bytes@.len(),
                        self.expected == old(self).expected,
                        self.payload@ == before + bytes@.subrange(0, i as int),
                    decreases bytes@.len() - i,
                {
                    self.payload.push(bytes[i]);
                    i = i + 1;
                    assert(self.payload@ =~= before + bytes@.subrange(0, i as int));
                }
                assert(bytes@.subrange(0, bytes@.len() as int) =~= bytes@);
                GammaRead::Continue
            },
            GammaChunk::EndOfFile => {
                if self.payload.len() == self.expected {
                    GammaRead::Complete(gamma_table(&self.payload, order))
                } else {
                    GammaRead::Truncated { received: self.payload.len(), expected: self.expected }
                }
            },
            GammaChunk::WouldBlock => GammaRead::Pending,
            GammaChunk::Interrupted => GammaRead::Continue,
            GammaChunk::Failed => GammaRead::ReadFailed,
        }
    }
}

/// Reads table entries, two bytes each in `order`; a trailing odd byte is ignored.
pub fn gamma_table(payload: &Vec<u8>, order: ByteOrder) -> (table: Vec<u16>)
    ensures
        table@ == spec_gamma_table(payload@, order),
{
    let mut table: Vec<u16> = Vec::new();
    let entries = payload.len() / 2;
    let mut i: usize = 0;
    while i < entries
        invariant
            entries == payload@.len() / 2,
            i <= entries,
            table@.len() == i,
            forall|j: int| 0 <= j < i ==> #[trigger] table@[j] == u16_in(order, payload@[2 * j], payload@[2 * j + 1]),
        decreases entries - i,
    {
        let len = payload.len();
        assert(2 * i + 1 < len) by (nonlinear_arith)
            requires
                i < entries,
                entries == len / 2;
        let first = payload[2 * i];
        let second = payload[2 * i + 1];
        let value = match order {
            ByteOrder::LittleEndian => first as u16 + 256 * second as u16,
            ByteOrder::BigEndian => second as u16 + 256 * first as u16,
        };
        table.push(value);
        i = i + 1;
    }
    assert(table@ =~= spec_gamma_table(payload@, order));
    table
}

} // verus!
