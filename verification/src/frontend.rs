//! Compositor-owned window and workspace state of the Wayland frontend.
//!
//! Protocol objects are adapters at the edge: once a surface becomes a
//! window, policy is keyed by its window identifier, whatever protocol the
//! client arrived through.

use vstd::prelude::*;

use crate::topology::OutputId;
use crate::vec_map::{MapKey, VecMap};
use crate::window_registry::{WindowRecord, WindowRegistry};

verus! {

/// A monitor-local workspace slot: one workspace of one output.
#[derive(Clone, Copy, Debug, PartialEq, Eq, Structural)]
pub struct WorkspaceLocation {
    pub output: OutputId,
    pub workspace: u8,
}

/// The key under which the last focused window of a workspace is remembered.
#[derive(Clone, Copy, Debug, PartialEq, Eq, Structural)]
pub struct FocusKey {
    pub output: OutputId,
    pub workspace: u8,
}

impl MapKey for FocusKey {
    fn same_key(&self, other: &Self) -> (same: bool) {
        self.output.0 == other.output.0 && self.workspace == other.workspace
    }
}

/// Workspace configuration as the settings file states it.
#[derive(Clone, Copy, Debug, PartialEq, Eq, Structural)]
pub struct WorkspaceSettings {
    pub enabled: bool,
    pub count: u8,
}

/// The mathematical state of the frontend's window and workspace policy.
pub struct FrontendView {
    pub workspaces_enabled: bool,
    pub workspace_count: u8,
    /// Connected outputs in their configured order.
    pub outputs: Seq<OutputId>,
    pub ticker_output: Option<OutputId>,
    /// Active workspace of each output, keyed by the output's raw identifier.
    pub active_workspaces: Map<u64, u8>,
    /// The window last focused on each workspace.
    pub focus_history: Map<FocusKey, u64>,
    /// Per-window records, keyed by the raw window identifier.
    pub windows: Map<u64, WindowRecord>,
    /// Window identifier of each registered surface.
    pub surface_ids: Map<u64, u64>,
    /// Whether the shell has reported which windows are visible.
    pub input_visibility_known: bool,
}

pub struct WaylandFrontend {
    pub(crate) workspaces_enabled: bool,
    pub(crate) workspace_count: u8,
    pub(crate) outputs: Vec<OutputId>,
    pub(crate) ticker_output: Option<OutputId>,
    pub(crate) active_workspaces: VecMap<u64, u8>,
    pub(crate) workspace_focus_history: VecMap<FocusKey, u64>,
    pub(crate) window_registry: WindowRegistry,
    pub(crate) surface_ids: VecMap<u64, u64>,
    pub(crate) input_visibility_known: bool,
}

impl View for WaylandFrontend {
    type V = FrontendView;

    open(crate) spec fn view(&self) -> FrontendView {
        FrontendView {
            workspaces_enabled: self.workspaces_enabled,
            workspace_count: self.workspace_count,
            outputs: self.outputs@,
            ticker_output: self.ticker_output,
            active_workspaces: self.active_workspaces@,
            focus_history: self.workspace_focus_history@,
            windows: self.window_registry@,
            surface_ids: self.surface_ids@,
            input_visibility_known: self.input_visibility_known,
        }
    }
}

impl FrontendView {
    /// Window identifiers are never zero.
    pub open spec fn ids_valid(self) -> bool {
        &&& forall|id: u64| #[trigger] self.windows.contains_key(id) ==> id != 0
        &&& forall|surface: u64| #[trigger] self.surface_ids.contains_key(surface) ==> self.surface_ids[surface] != 0
    }

    /// Window identifiers stay valid while the window and surface tables are unchanged.
    pub proof fn lemma_ids_frame(before: FrontendView, after: FrontendView)
        requires
            before.ids_valid(),
            after.windows.dom() =~= before.windows.dom(),
            after.surface_ids =~= before.surface_ids,
        ensures
            after.ids_valid(),
    {
        assert forall|id: u64| #[trigger] after.windows.contains_key(id) implies id != 0 by {
            assert(before.windows.contains_key(id));
        }
        assert forall|surface: u64| #[trigger] after.surface_ids.contains_key(surface) implies after.surface_ids[surface] != 0 by {
            assert(before.surface_ids.contains_key(surface));
        }
    }

    pub open spec fn output_present(self, output: OutputId) -> bool {
        self.outputs.contains(output)
    }

    /// The active workspace of an output; an output never switched is on its first.
    pub open spec fn active_workspace(self, output: OutputId) -> u8 {
        if self.active_workspaces.contains_key(output.0) {
            self.active_workspaces[output.0]
        } else {
            1
        }
    }

    /// The record of a window, or the empty record a first touch creates.
    pub open spec fn record(self, id: u64) -> WindowRecord {
        if self.windows.contains_key(id) {
            self.windows[id]
        } else {
            WindowRecord::spec_empty()
        }
    }

    pub open spec fn with_windows(self, windows: Map<u64, WindowRecord>) -> FrontendView {
        FrontendView { windows, ..self }
    }

    pub open spec fn with_record(self, id: u64, record: WindowRecord) -> FrontendView {
        FrontendView { windows: self.windows.insert(id, record), ..self }
    }
}

impl WaylandFrontend {
    pub open(crate) spec fn wf(&self) -> bool {
        &&& self.active_workspaces.wf()
        &&& self.workspace_focus_history.wf()
        &&& self.window_registry.wf()
        &&& self.surface_ids.wf()
        &&& self@.ids_valid()
    }

    /// A frontend with no outputs, windows or surfaces yet.
    pub fn new(settings: WorkspaceSettings) -> (frontend: WaylandFrontend)
        ensures
            frontend.wf(),
            frontend@ == (FrontendView {
                workspaces_enabled: settings.enabled,
                workspace_count: settings.count,
                outputs: Seq::empty(),
                ticker_output: None,
                active_workspaces: Map::empty(),
                focus_history: Map::empty(),
                windows: Map::empty(),
                surface_ids: Map::empty(),
                input_visibility_known: false,
            }),
    {
        WaylandFrontend {
            workspaces_enabled: settings.enabled,
            workspace_count: settings.count,
            outputs: Vec::new(),
            ticker_output: None,
            active_workspaces: VecMap::new(),
            workspace_focus_history: VecMap::new(),
            window_registry: WindowRegistry::new(),
            surface_ids: VecMap::new(),
            input_visibility_known: false,
        }
    }

    /// Replaces the connected outputs, in their configured order.
    pub fn set_outputs(&mut self, outputs: Vec<OutputId>)
        requires
            old(self).wf(),
        ensures
            final(self).wf(),
            final(self)@ == (FrontendView { outputs: outputs@, ..old(self)@ }),
    {
        self.outputs = outputs;
    }

    /// Selects the output that hosts the shell's ticker, if any.
    pub fn set_ticker_output(&mut self, output: Option<OutputId>)
        requires
            old(self).wf(),
        ensures
            final(self).wf(),
            final(self)@ == (FrontendView { ticker_output: output, ..old(self)@ }),
    {
        self.ticker_output = output;
    }

    /// Records whether the shell has reported which windows are visible.
    pub fn set_input_visibility_known(&mut self, known: bool)
        requires
            old(self).wf(),
        ensures
            final(self).wf(),
            final(self)@ == (FrontendView { input_visibility_known: known, ..old(self)@ }),
    {
        self.input_visibility_known = known;
    }

    /// Whether `output` is one of the connected outputs.
    pub fn output_present(&self, output: OutputId) -> (present: bool)
        ensures
            present == self@.output_present(output),
    {
        let mut i: usize = 0;
        while i < self.outputs.len()
            invariant
                i <= self.outputs@.len(),
                forall|j: int| 0 <= j < i ==> self.outputs@[j] != output,
            decreases self.outputs@.len() - i,
        {
            if self.outputs[i].same(&output) {
                return true;
            }
            i = i + 1;
        }
        false
    }
}

} // verus!
