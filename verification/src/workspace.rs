//! Monitor-local virtual workspace ownership.
//!
//! A normal window belongs to exactly one `(output, workspace)` pair. A
//! minimized window belongs to no workspace and remembers only its preferred
//! output, so restoring it attaches it to that output's currently active
//! workspace.

use vstd::prelude::*;

use crate::frontend::{FocusKey, FrontendView, WaylandFrontend, WorkspaceLocation, WorkspaceSettings};
use crate::topology::{monitor_output, spec_monitor_output, OutputId};
use crate::window_registry::{WindowId, WindowRecord};
use crate::vec_map::{keys_distinct, lemma_seq_map_index, seq_map, VecMap};

verus! {

/// The focus history without any entry naming window `id`.
pub open spec fn forget_window(history: Map<FocusKey, u64>, id: u64) -> Map<FocusKey, u64> {
    Map::new(|key: FocusKey| history.contains_key(key) && history[key] != id, |key: FocusKey| history[key])
}

/// A workspace number moved into `1..=count`, or to one when there is no
/// workspace at all.
pub open spec fn clamp_workspace(workspace: u8, count: u8) -> u8 {
    let lowered = if workspace < count { workspace } else { count };
    if lowered > 1 { lowered } else { 1 }
}

/// Where a workspace lands under new settings: removed workspaces merge into
/// the highest remaining one, and disabling merges everything into the first.
pub open spec fn settle_workspace(workspace: u8, settings: WorkspaceSettings) -> u8 {
    if settings.enabled {
        if workspace < settings.count { workspace } else { settings.count }
    } else {
        1
    }
}

pub open spec fn settle_record(record: WindowRecord, settings: WorkspaceSettings) -> WindowRecord {
    match record.workspace {
        Some(location) => WindowRecord {
            workspace: Some(WorkspaceLocation { workspace: settle_workspace(location.workspace, settings), ..location }),
            ..record
        },
        None => record,
    }
}

impl FrontendView {
    pub open spec fn spec_workspace_location(self, id: u64) -> Option<WorkspaceLocation> {
        if self.windows.contains_key(id) {
            self.windows[id].workspace
        } else {
            None
        }
    }

    pub open spec fn spec_active_workspace_for_monitor(self, monitor_id: i64) -> Option<u8> {
        match spec_monitor_output(monitor_id) {
            Some(output) => if self.output_present(output) {
                Some(self.active_workspace(output))
            } else {
                None
            },
            None => None,
        }
    }

    pub open spec fn spec_window_is_on_active_workspace(self, id: u64) -> bool {
        !self.workspaces_enabled || (self.spec_workspace_location(id) matches Some(location)
            && location.workspace == self.active_workspace(location.output))
    }

    pub open spec fn spec_reconcile_workspace_assignment(self, id: u64, output: OutputId, minimized: bool) -> (FrontendView, Option<WorkspaceLocation>) {
        if !self.output_present(output) {
            (self, None)
        } else {
            let active = self.active_workspace(output);
            let record = self.record(id);
            if minimized {
                let preferred = match record.workspace {
                    Some(location) => location.output,
                    None => output,
                };
                let remembered = match record.minimized_output {
                    Some(remembered) => Some(remembered),
                    None => Some(preferred),
                };
                (self.with_record(id, WindowRecord { workspace: None, minimized_output: remembered, ..record }), None)
            } else {
                let location = match record.workspace {
                    Some(current) => if current.output == output {
                        current
                    } else {
                        WorkspaceLocation { output, workspace: active }
                    },
                    None => WorkspaceLocation { output, workspace: active },
                };
                (
                    self.with_record(id, WindowRecord { minimized_output: None, workspace: Some(location), ..record }),
                    Some(location),
                )
            }
        }
    }

    pub open spec fn spec_mark_window_minimized(self, id: u64, fallback: OutputId) -> FrontendView {
        let record = self.record(id);
        let preferred = match record.workspace {
            Some(location) => location.output,
            None => fallback,
        };
        FrontendView {
            focus_history: forget_window(self.focus_history, id),
            windows: self.windows.insert(id, WindowRecord { workspace: None, minimized_output: Some(preferred), ..record }),
            ..self
        }
    }

    /// Where a window with no usable remembered output is restored to.
    pub open spec fn restore_fallback_output(self) -> Option<OutputId> {
        match self.ticker_output {
            Some(ticker) => Some(ticker),
            None => if self.outputs.len() > 0 {
                Some(self.outputs[0])
            } else {
                None
            },
        }
    }

    pub open spec fn spec_restore_window_workspace(self, id: u64) -> (FrontendView, Option<WorkspaceLocation>) {
        if self.windows.contains_key(id) && self.windows[id].workspace is Some {
            let record = self.windows[id];
            (self.with_record(id, WindowRecord { minimized_output: None, ..record }), record.workspace)
        } else {
            let taken = if self.windows.contains_key(id) { self.windows[id].minimized_output } else { None };
            let after_take = if self.windows.contains_key(id) {
                self.with_record(id, WindowRecord { minimized_output: None, ..self.windows[id] })
            } else {
                self
            };
            let output = match taken {
                Some(remembered) => if self.output_present(remembered) {
                    Some(remembered)
                } else {
                    self.restore_fallback_output()
                },
                None => self.restore_fallback_output(),
            };
            match output {
                None => (after_take, None),
                Some(output) => {
                    let location = WorkspaceLocation { output, workspace: self.active_workspace(output) };
                    (
                        after_take.with_record(id, WindowRecord { workspace: Some(location), ..after_take.record(id) }),
                        Some(location),
                    )
                },
            }
        }
    }

    pub open spec fn spec_record_workspace_focus(self, id: u64) -> FrontendView {
        match self.spec_workspace_location(id) {
            Some(location) => FrontendView {
                focus_history: self.focus_history.insert(
                    FocusKey { output: location.output, workspace: location.workspace },
                    id,
                ),
                ..self
            },
            None => self,
        }
    }

    pub open spec fn spec_remembered_workspace_focus(self, monitor_id: i64, workspace: u8) -> Option<u64> {
        match spec_monitor_output(monitor_id) {
            Some(output) => {
                let key = FocusKey { output, workspace };
                if self.focus_history.contains_key(key) {
                    Some(self.focus_history[key])
                } else {
                    None
                }
            },
            None => None,
        }
    }

    pub open spec fn workspace_in_range(self, workspace: u8) -> bool {
        1 <= workspace <= self.workspace_count
    }

    pub open spec fn spec_switch_workspace(self, monitor_id: i64, workspace: u8) -> (FrontendView, bool) {
        if !self.workspaces_enabled || !self.workspace_in_range(workspace) {
            (self, false)
        } else {
            match spec_monitor_output(monitor_id) {
                None => (self, false),
                Some(output) => if !self.output_present(output) {
                    (self, false)
                } else {
                    let current = self.active_workspace(output);
                    if current == workspace {
                        (
                            FrontendView {
                                active_workspaces: self.active_workspaces.insert(output.0, current),
                                ..self
                            },
                            false,
                        )
                    } else {
                        (
                            FrontendView {
                                active_workspaces: self.active_workspaces.insert(output.0, workspace),
                                ..self
                            },
                            true,
                        )
                    }
                },
            }
        }
    }

    pub open spec fn spec_adjacent_workspace(self, monitor_id: i64, delta: i8) -> Option<u8> {
        if !self.workspaces_enabled {
            None
        } else {
            match self.spec_active_workspace_for_monitor(monitor_id) {
                Some(current) => Some(
                    ((current as int - 1 + delta as int) % (self.workspace_count as int) + 1) as u8,
                ),
                None => None,
            }
        }
    }

    pub open spec fn spec_move_window_to_workspace(self, id: u64, output: Option<OutputId>, workspace: u8) -> (FrontendView, Option<WorkspaceLocation>) {
        if !self.workspaces_enabled || !self.workspace_in_range(workspace) {
            (self, None)
        } else if output matches Some(requested) && !self.output_present(requested) {
            (self, None)
        } else {
            let forgotten = FrontendView { focus_history: forget_window(self.focus_history, id), ..self };
            if self.windows.contains_key(id) && self.windows[id].workspace is Some {
                let current = self.windows[id].workspace.unwrap();
                let location = WorkspaceLocation {
                    output: match output {
                        Some(requested) => requested,
                        None => current.output,
                    },
                    workspace,
                };
                (forgotten.with_record(id, WindowRecord { workspace: Some(location), ..self.windows[id] }), Some(location))
            } else {
                (forgotten, None)
            }
        }
    }

    pub open spec fn spec_set_workspace_settings(self, settings: WorkspaceSettings) -> (FrontendView, bool) {
        if self.workspaces_enabled == settings.enabled && self.workspace_count == settings.count {
            (self, false)
        } else {
            (
                FrontendView {
                    workspaces_enabled: settings.enabled,
                    workspace_count: settings.count,
                    active_workspaces: self.active_workspaces.map_values(|workspace: u8| settle_workspace(workspace, settings)),
                    windows: self.windows.map_values(|record: WindowRecord| settle_record(record, settings)),
                    ..self
                },
                true,
            )
        }
    }
}

impl WaylandFrontend {
    pub fn workspaces_enabled(&self) -> (enabled: bool)
        ensures
            enabled == self@.workspaces_enabled,
    {
        self.workspaces_enabled
    }

    pub fn workspace_count(&self) -> (count: u8)
        ensures
            count == self@.workspace_count,
    {
        self.workspace_count
    }

    pub fn active_workspace(&self, output: OutputId) -> (workspace: u8)
        requires
            self.wf(),
        ensures
            workspace == self@.active_workspace(output),
    {
        match self.active_workspaces.get(&output.0) {
            Some(workspace) => workspace,
            None => 1,
        }
    }

    pub fn active_workspace_for_monitor(&self, monitor_id: i64) -> (workspace: Option<u8>)
        requires
            self.wf(),
        ensures
            workspace == self@.spec_active_workspace_for_monitor(monitor_id),
    {
        let output = monitor_output(monitor_id)?;
        if self.output_present(output) {
            Some(self.active_workspace(output))
        } else {
            None
        }
    }

    pub fn workspace_location(&self, window_id: u64) -> (location: Option<WorkspaceLocation>)
        requires
            self.wf(),
            window_id != 0,
        ensures
            location == self@.spec_workspace_location(window_id),
    {
        match self.window_record(window_id) {
            Some(record) => record.workspace,
            None => None,
        }
    }

    /// Places a window on the workspace its output shows, or takes a minimized
    /// window off every workspace while remembering where it belongs.
    pub fn reconcile_workspace_assignment(&mut self, window_id: u64, output: OutputId, minimized: bool) -> (location: Option<WorkspaceLocation>)
        requires
            old(self).wf(),
            window_id != 0,
        ensures
            final(self).wf(),
            (final(self)@, location) == old(self)@.spec_reconcile_workspace_assignment(window_id, output, minimized),
    {
        if !self.output_present(output) {
            return None;
        }
        let active = self.active_workspace(output);
        let id = WindowId::new(window_id);
        let record = self.record_or_empty(id);
        if minimized {
            let preferred = match record.workspace {
                Some(location) => location.output,
                None => output,
            };
            let remembered = match record.minimized_output {
                Some(remembered) => Some(remembered),
                None => Some(preferred),
            };
            self.replace_record(id, WindowRecord { workspace: None, minimized_output: remembered, ..record });
            return None;
        }
        let location = match record.workspace {
            Some(current) => if current.output.same(&output) {
                current
            } else {
                WorkspaceLocation { output, workspace: active }
            },
            None => WorkspaceLocation { output, workspace: active },
        };
        self.replace_record(id, WindowRecord { minimized_output: None, workspace: Some(location), ..record });
        Some(location)
    }

    /// Takes a minimized window off its workspace and forgets it as any
    /// workspace's focus, remembering its output (or `fallback`) for restore.
    pub fn mark_window_minimized(&mut self, window_id: u64, fallback: OutputId)
        requires
            old(self).wf(),
            window_id != 0,
        ensures
            final(self).wf(),
            final(self)@ == old(self)@.spec_mark_window_minimized(window_id, fallback),
    {
        let id = WindowId::new(window_id);
        let other_window = |_key: FocusKey, focused: u64| -> (keep: bool)
            ensures keep == (focused != window_id)
        { focused != window_id };
        self.workspace_focus_history.retain(other_window);
        proof {
            assert(self.workspace_focus_history@ =~= forget_window(old(self)@.focus_history, window_id));
        }
        let record = self.record_or_empty(id);
        let preferred = match record.workspace {
            Some(location) => location.output,
            None => fallback,
        };
        self.replace_record(id, WindowRecord { workspace: None, minimized_output: Some(preferred), ..record });
    }

    /// Puts a window back on a workspace: the one it still has, else the
    /// active workspace of its remembered output (when still connected), the
    /// ticker output, or the first output.
    pub fn restore_window_workspace(&mut self, window_id: u64) -> (location: Option<WorkspaceLocation>)
        requires
            old(self).wf(),
            window_id != 0,
        ensures
            final(self).wf(),
            (final(self)@, location) == old(self)@.spec_restore_window_workspace(window_id),
    {
        let id = WindowId::new(window_id);
        let existing = self.window_registry.get(id);
        if let Some(record) = existing {
            if record.workspace.is_some() {
                self.replace_record(id, WindowRecord { minimized_output: None, ..record });
                return record.workspace;
            }
        }
        let taken = match existing {
            Some(record) => {
                self.replace_record(id, WindowRecord { minimized_output: None, ..record });
                record.minimized_output
            },
            None => None,
        };
        let remembered = match taken {
            Some(remembered) => if self.output_present(remembered) {
                Some(remembered)
            } else {
                None
            },
            None => None,
        };
        let output = match remembered {
            Some(remembered) => remembered,
            None => match self.ticker_output {
                Some(ticker) => ticker,
                None => {
                    if self.outputs.len() == 0 {
                        return None;
                    }
                    self.outputs[0]
                },
            },
        };
        let location = WorkspaceLocation { output, workspace: self.active_workspace(output) };
        let record = self.record_or_empty(id);
        self.replace_record(id, WindowRecord { workspace: Some(location), ..record });
        Some(location)
    }

    /// Remembers a window as the focus of the workspace it is on.
    pub fn record_workspace_focus(&mut self, window_id: u64)
        requires
            old(self).wf(),
            window_id != 0,
        ensures
            final(self).wf(),
            final(self)@ == old(self)@.spec_record_workspace_focus(window_id),
    {
        if let Some(location) = self.workspace_location(window_id) {
            self.workspace_focus_history.insert(
                FocusKey { output: location.output, workspace: location.workspace },
                window_id,
            );
        }
    }

    /// The workspace slot of the focused window, as the shell names it: the
    /// window and its output's monitor identifier. `None` without a focused
    /// window, without a workspace, or when the output has no such identifier.
    pub fn focused_workspace_window(&self, focused: Option<u64>) -> (slot: Option<(u64, i64)>)
        requires
            self.wf(),
        ensures
            slot == (match focused {
                Some(id) if id != 0 => match self@.spec_workspace_location(id) {
                    Some(location) => if location.output.0 <= i64::MAX as u64 {
                        Some((id, location.output.0 as i64))
                    } else {
                        None
                    },
                    None => None,
                },
                _ => None,
            }),
    {
        let id = match focused {
            Some(id) => id,
            None => {
                return None;
            },
        };
        if id == 0 {
            return None;
        }
        let location = self.workspace_location(id)?;
        if location.output.0 <= i64::MAX as u64 {
            Some((id, location.output.0 as i64))
        } else {
            None
        }
    }

    /// Whether a window sits on a given workspace of a monitor; a monitor
    /// identifier that names no output matches no window.
    pub fn window_belongs_to_workspace(&self, window_id: u64, monitor_id: i64, workspace: u8) -> (belongs: bool)
        requires
            self.wf(),
            window_id != 0,
        ensures
            belongs == (monitor_id >= 0 && self@.spec_workspace_location(window_id) == Some(
                WorkspaceLocation { output: OutputId(monitor_id as u64), workspace },
            )),
    {
        if monitor_id < 0 {
            return false;
        }
        match self.workspace_location(window_id) {
            Some(location) => location.output.0 == monitor_id as u64 && location.workspace == workspace,
            None => false,
        }
    }

    /// Whether "minimize all" takes a client window: it is not minimized
    /// already and is shown on its output's active workspace.
    pub fn client_window_minimizable(&self, surface: u64, window_id: u64) -> (minimizable: bool)
        requires
            self.wf(),
            window_id != 0,
        ensures
            minimizable == (!(self@.spec_window_record_for_surface(surface) matches Some(record) && record.minimized)
                && self@.spec_window_is_on_active_workspace(window_id)),
    {
        !self.surface_is_minimized(surface) && self.window_is_on_active_workspace(window_id)
    }

    /// The window last focused on a workspace of a monitor.
    pub fn remembered_workspace_focus(&self, monitor_id: i64, workspace: u8) -> (window: Option<u64>)
        requires
            self.wf(),
        ensures
            window == self@.spec_remembered_workspace_focus(monitor_id, workspace),
    {
        let output = monitor_output(monitor_id)?;
        self.workspace_focus_history.get(&FocusKey { output, workspace })
    }

    /// Whether a window is shown: always with workspaces disabled, otherwise
    /// only on the active workspace of its output.
    pub fn window_is_on_active_workspace(&self, window_id: u64) -> (active: bool)
        requires
            self.wf(),
            window_id != 0,
        ensures
            active == self@.spec_window_is_on_active_workspace(window_id),
    {
        if !self.workspaces_enabled {
            return true;
        }
        match self.workspace_location(window_id) {
            Some(location) => location.workspace == self.active_workspace(location.output),
            None => false,
        }
    }

    /// Shows `workspace` on a monitor. Returns whether the visible workspace
    /// changed, in which case idle inhibition must be recomputed.
    pub fn switch_workspace(&mut self, monitor_id: i64, workspace: u8) -> (changed: bool)
        requires
            old(self).wf(),
        ensures
            final(self).wf(),
            (final(self)@, changed) == old(self)@.spec_switch_workspace(monitor_id, workspace),
    {
        if !self.workspaces_enabled || !(1 <= workspace && workspace <= self.workspace_count) {
            return false;
        }
        let Some(output) = monitor_output(monitor_id) else {
            return false;
        };
        if !self.output_present(output) {
            return false;
        }
        let current = self.active_workspace(output);
        self.active_workspaces.insert(output.0, workspace);
        proof {
            FrontendView::lemma_ids_frame(old(self)@, self@);
        }
        current != workspace
    }

    /// The workspace `delta` steps away from a monitor's active one, wrapping
    /// around the configured count.
    pub fn adjacent_workspace(&self, monitor_id: i64, delta: i8) -> (workspace: Option<u8>)
        requires
            self.wf(),
            !(self@.workspaces_enabled && self@.workspace_count == 0
                && self@.spec_active_workspace_for_monitor(monitor_id) is Some),
        ensures
            workspace == self@.spec_adjacent_workspace(monitor_id, delta),
    {
        if !self.workspaces_enabled {
            return None;
        }
        let current = self.active_workspace_for_monitor(monitor_id)?;
        let count = self.workspace_count as i16;
        let shifted: i16 = current as i16 - 1 + delta as i16;
        let zero_based = match shifted.checked_rem_euclid(count) {
            Some(zero_based) => zero_based,
            None => return None,
        };
        Some((zero_based + 1) as u8)
    }

    /// Moves a placed window to a workspace, optionally of another output.
    pub fn move_window_to_workspace(&mut self, window_id: u64, output: Option<OutputId>, workspace: u8) -> (location: Option<WorkspaceLocation>)
        requires
            old(self).wf(),
            window_id != 0,
        ensures
            final(self).wf(),
            (final(self)@, location) == old(self)@.spec_move_window_to_workspace(window_id, output, workspace),
    {
        if !self.workspaces_enabled || !(1 <= workspace && workspace <= self.workspace_count) {
            return None;
        }
        if let Some(requested) = output {
            if !self.output_present(requested) {
                return None;
            }
        }
        let id = WindowId::new(window_id);
        let other_window = |_key: FocusKey, focused: u64| -> (keep: bool)
            ensures keep == (focused != window_id)
        { focused != window_id };
        self.workspace_focus_history.retain(other_window);
        proof {
            assert(self.workspace_focus_history@ =~= forget_window(old(self)@.focus_history, window_id));
        }
        proof {
            FrontendView::lemma_ids_frame(old(self)@, self@);
        }
        let Some(record) = self.window_registry.get(id) else {
            return None;
        };
        let Some(current) = record.workspace else {
            return None;
        };
        let location = WorkspaceLocation {
            output: match output {
                Some(requested) => requested,
                None => current.output,
            },
            workspace,
        };
        self.replace_record(id, WindowRecord { workspace: Some(location), ..record });
        Some(location)
    }

    /// Applies live workspace settings without discarding windows. Removed
    /// workspaces merge into the highest remaining workspace on their output;
    /// disabling merges everything into workspace one. Returns whether the
    /// settings changed, in which case idle inhibition must be recomputed.
    pub fn set_workspace_settings(&mut self, settings: WorkspaceSettings) -> (changed: bool)
        requires
            old(self).wf(),
        ensures
            final(self).wf(),
            (final(self)@, changed) == old(self)@.spec_set_workspace_settings(settings),
    {
        if self.workspaces_enabled == settings.enabled && self.workspace_count == settings.count {
            return false;
        }
        self.workspaces_enabled = settings.enabled;
        self.workspace_count = settings.count;
        let settle = |_output: u64, workspace: u8| -> (settled: u8)
            ensures settled == settle_workspace(workspace, settings)
        {
            if settings.enabled {
                if workspace < settings.count { workspace } else { settings.count }
            } else {
                1
            }
        };
        self.active_workspaces.map_values(settle);
        let settle_window = |_id: u64, record: WindowRecord| -> (settled: WindowRecord)
            ensures settled == settle_record(record, settings)
        { settled_record(record, settings) };
        self.window_registry.windows.map_values(settle_window);
        proof {
            assert(self.active_workspaces@ =~= old(self)@.active_workspaces.map_values(
                |workspace: u8| settle_workspace(workspace, settings),
            ));
            assert(self.window_registry@ =~= old(self)@.windows.map_values(
                |record: WindowRecord| settle_record(record, settings),
            ));
            FrontendView::lemma_ids_frame(old(self)@, self@);
        }
        true
    }
}

/// A record whose workspace and remembered output move from disconnected
/// outputs to `fallback`, with its workspace clamped to the configured count.
pub open spec fn migrate_record(outputs: Seq<OutputId>, count: u8, record: WindowRecord, fallback: OutputId) -> WindowRecord {
    WindowRecord {
        workspace: match record.workspace {
            Some(location) => Some(
                WorkspaceLocation {
                    output: if outputs.contains(location.output) {
                        location.output
                    } else {
                        fallback
                    },
                    workspace: clamp_workspace(location.workspace, count),
                },
            ),
            None => None,
        },
        minimized_output: match record.minimized_output {
            Some(output) => Some(if outputs.contains(output) { output } else { fallback }),
            None => None,
        },
        ..record
    }
}

impl FrontendView {
    /// `(monitor, active workspace)` for each listed output whose identifier
    /// is a valid monitor identifier, in output order.
    pub open spec fn spec_workspace_snapshot(self, outputs: Seq<OutputId>) -> Seq<(i64, u8)>
        decreases outputs.len(),
    {
        if outputs.len() == 0 {
            Seq::empty()
        } else {
            let earlier = self.spec_workspace_snapshot(outputs.drop_last());
            let output = outputs.last();
            if output.0 <= i64::MAX as u64 {
                earlier.push((output.0 as i64, self.active_workspace(output)))
            } else {
                earlier
            }
        }
    }

    pub open spec fn first_output(self) -> Option<OutputId> {
        if self.outputs.len() > 0 {
            Some(self.outputs[0])
        } else {
            None
        }
    }

    /// The output that inherits ownership from disconnected outputs: the
    /// ticker output while connected, else the first output.
    pub open spec fn spec_reconcile_fallback(self) -> Option<OutputId> {
        match self.ticker_output {
            Some(ticker) => if self.output_present(ticker) {
                Some(ticker)
            } else {
                self.first_output()
            },
            None => self.first_output(),
        }
    }

    pub open spec fn migrated_record(self, record: WindowRecord, fallback: OutputId) -> WindowRecord {
        migrate_record(self.outputs, self.workspace_count, record, fallback)
    }

    /// Whether `key` is a focus entry of a disconnected output that moves to
    /// `target` on the fallback output.
    pub open spec fn migrates_to(self, key: FocusKey, fallback: OutputId, target: FocusKey) -> bool {
        &&& self.focus_history.contains_key(key)
        &&& !self.output_present(key.output)
        &&& target == (FocusKey { output: fallback, workspace: clamp_workspace(key.workspace, self.workspace_count) })
    }

    /// How `reconcile_workspace_outputs` leaves the state: ownership moves
    /// away from disconnected outputs while surviving outputs keep their
    /// workspace, and newly connected outputs start on workspace one.
    pub open spec fn reconciled_outputs(self, after: FrontendView) -> bool {
        &&& after == (FrontendView {
            active_workspaces: after.active_workspaces,
            focus_history: after.focus_history,
            windows: after.windows,
            ..self
        })
        &&& forall|raw: u64| #[trigger] after.active_workspaces.contains_key(raw) == self.output_present(OutputId(raw))
        &&& forall|raw: u64| #[trigger] self.output_present(OutputId(raw))
            ==> after.active_workspaces[raw] == self.active_workspace(OutputId(raw))
        &&& after.windows.dom() == self.windows.dom()
        &&& match self.spec_reconcile_fallback() {
            None => {
                &&& after.focus_history == Map::<FocusKey, u64>::empty()
                &&& forall|id: u64| #[trigger] self.windows.contains_key(id) ==> after.windows[id]
                    == (WindowRecord { workspace: None, minimized_output: None, ..self.windows[id] })
            },
            Some(fallback) => {
                &&& forall|id: u64| #[trigger] self.windows.contains_key(id) ==> after.windows[id]
                    == self.migrated_record(self.windows[id], fallback)
                &&& forall|key: FocusKey| #[trigger] after.focus_history.contains_key(key) == (
                    (self.focus_history.contains_key(key) && self.output_present(key.output))
                    || exists|old_key: FocusKey| #[trigger] self.migrates_to(old_key, fallback, key))
                &&& forall|key: FocusKey|
                    #[trigger] self.focus_history.contains_key(key) && self.output_present(key.output)
                    ==> after.focus_history[key] == self.focus_history[key]
                &&& forall|key: FocusKey|
                    #[trigger] after.focus_history.contains_key(key) && !(self.focus_history.contains_key(key)
                        && self.output_present(key.output)) ==> exists|old_key: FocusKey|
                        #[trigger] self.migrates_to(old_key, fallback, key) && after.focus_history[key]
                            == self.focus_history[old_key]
            },
        }
    }
}

impl WaylandFrontend {
    /// `(monitor, active workspace)` for every connected output.
    pub fn workspace_state_snapshot(&self) -> (snapshot: Vec<(i64, u8)>)
        requires
            self.wf(),
        ensures
            snapshot@ == self@.spec_workspace_snapshot(self@.outputs),
    {
        let mut snapshot: Vec<(i64, u8)> = Vec::new();
        let mut i: usize = 0;
        while i < self.outputs.len()
            invariant
                self.wf(),
                i <= self.outputs@.len(),
                snapshot@ == self@.spec_workspace_snapshot(self@.outputs.take(i as int)),
            decreases self.outputs@.len() - i,
        {
            let output = self.outputs[i];
            proof {
                assert(self@.outputs.take(i + 1).drop_last() =~= self@.outputs.take(i as int));
            }
            if output.0 <= i64::MAX as u64 {
                snapshot.push((output.0 as i64, self.active_workspace(output)));
            }
            i = i + 1;
        }
        proof {
            assert(self@.outputs.take(self@.outputs.len() as int) =~= self@.outputs);
        }
        snapshot
    }
}

/// The raw identifier of an output a sequence lists.
pub open spec fn lists_raw(outputs: Seq<OutputId>, raw: u64) -> bool {
    outputs.contains(OutputId(raw))
}

/// Keeps the active workspace of every listed output and starts every other
/// listed output on workspace one; unlisted outputs are dropped.
fn adopt_active_workspaces(active: &mut VecMap<u64, u8>, outputs: &Vec<OutputId>)
    requires
        old(active).wf(),
    ensures
        final(active).wf(),
        forall|raw: u64| #[trigger] final(active)@.contains_key(raw) == outputs@.contains(OutputId(raw)),
        forall|raw: u64| #[trigger] outputs@.contains(OutputId(raw)) ==> final(active)@[raw] == (
            if old(active)@.contains_key(raw) { old(active)@[raw] } else { 1u8 }),
{
    let ghost start = active@;
    let present_output = |raw: u64, _workspace: u8| -> (keep: bool)
        ensures keep == outputs@.contains(OutputId(raw))
    { lists_output(outputs, OutputId(raw)) };
    active.retain(present_output);
    let mut k: usize = 0;
    while k < outputs.len()
        invariant
            active.wf(),
            k <= outputs@.len(),
            forall|raw: u64| #[trigger] active@.contains_key(raw) == (
                (start.contains_key(raw) && outputs@.contains(OutputId(raw)))
                || exists|j: int| 0 <= j < k && (#[trigger] outputs@[j]).0 == raw),
            forall|raw: u64| #[trigger] active@.contains_key(raw)
                ==> active@[raw] == (if start.contains_key(raw) { start[raw] } else { 1u8 }),
        decreases outputs@.len() - k,
    {
        let output = outputs[k];
        if !active.contains_key(&output.0) {
            proof {
                assert(OutputId(output.0) == output);
                assert(outputs@.contains(output));
            }
            active.insert(output.0, 1);
        }
        proof {
            assert forall|raw: u64| #[trigger] active@.contains_key(raw) == (
                (start.contains_key(raw) && outputs@.contains(OutputId(raw)))
                || exists|j: int| 0 <= j < k + 1 && (#[trigger] outputs@[j]).0 == raw) by {
                if raw == output.0 {
                    assert(outputs@[k as int].0 == raw);
                }
            }
        }
        k = k + 1;
    }
    proof {
        assert forall|raw: u64| #[trigger] active@.contains_key(raw) == outputs@.contains(OutputId(raw)) by {
            if outputs@.contains(OutputId(raw)) {
                let j = choose|j: int| 0 <= j < outputs@.len() && outputs@[j] == OutputId(raw);
                assert(outputs@[j].0 == raw);
            }
            if exists|j: int| 0 <= j < outputs@.len() && (#[trigger] outputs@[j]).0 == raw {
                let j = choose|j: int| 0 <= j < outputs@.len() && (#[trigger] outputs@[j]).0 == raw;
                assert(outputs@[j] == OutputId(raw));
            }
        }
        assert forall|raw: u64| #[trigger] outputs@.contains(OutputId(raw)) implies active@[raw] == (
            if start.contains_key(raw) { start[raw] } else { 1u8 }) by {
            assert(active@.contains_key(raw));
        }
    }
}

/// The focus entries of outputs that `outputs` does not list.
fn unlisted_focus(history: &VecMap<FocusKey, u64>, outputs: &Vec<OutputId>) -> (migrated: Vec<(FocusKey, u64)>)
    requires
        history.wf(),
    ensures
        forall|j: int| 0 <= j < migrated@.len() ==> {
            &&& history@.contains_key((#[trigger] migrated@[j]).0)
            &&& history@[migrated@[j].0] == migrated@[j].1
            &&& !outputs@.contains(migrated@[j].0.output)
        },
        forall|key: FocusKey| #[trigger] history@.contains_key(key) && !outputs@.contains(key.output)
            ==> exists|m: int| 0 <= m < migrated@.len() && #[trigger] migrated@[m].0 == key,
{
    let entries = history.entries();
    proof {
        history.lemma_view();
    }
    let mut migrated: Vec<(FocusKey, u64)> = Vec::new();
    let mut i: usize = 0;
    while i < entries.len()
        invariant
            keys_distinct(entries@),
            seq_map(entries@) == history@,
            i <= entries@.len(),
            forall|j: int| 0 <= j < migrated@.len() ==> {
                &&& history@.contains_key((#[trigger] migrated@[j]).0)
                &&& history@[migrated@[j].0] == migrated@[j].1
                &&& !outputs@.contains(migrated@[j].0.output)
            },
            forall|j: int| 0 <= j < i && !outputs@.contains((#[trigger] entries@[j]).0.output)
                ==> exists|m: int| 0 <= m < migrated@.len() && #[trigger] migrated@[m].0 == entries@[j].0,
        decreases entries@.len() - i,
    {
        let entry = entries[i];
        proof {
            lemma_seq_map_index(entries@, i as int);
        }
        let ghost previous = migrated@;
        if !lists_output(outputs, entry.0.output) {
            migrated.push(entry);
        }
        proof {
            assert forall|j: int| 0 <= j < i + 1 && !outputs@.contains((#[trigger] entries@[j]).0.output)
                implies exists|m: int| 0 <= m < migrated@.len() && #[trigger] migrated@[m].0 == entries@[j].0 by {
                if j < i {
                    let m = choose|m: int| 0 <= m < previous.len() && #[trigger] previous[m].0 == entries@[j].0;
                    assert(migrated@[m] == previous[m]);
                } else {
                    assert(migrated@[previous.len() as int].0 == entries@[j].0);
                }
            }
        }
        i = i + 1;
    }
    proof {
        assert forall|key: FocusKey| #[trigger] history@.contains_key(key) && !outputs@.contains(key.output)
            implies exists|m: int| 0 <= m < migrated@.len() && #[trigger] migrated@[m].0 == key by {
            let j = choose|j: int| 0 <= j < entries@.len() && #[trigger] entries@[j].0 == key;
            assert(!outputs@.contains(entries@[j].0.output));
        }
    }
    migrated
}

/// The focus key a migrated entry moves to.
pub open spec fn migrated_key(key: FocusKey, fallback: OutputId, count: u8) -> FocusKey {
    FocusKey { output: fallback, workspace: clamp_workspace(key.workspace, count) }
}

/// Adds each migrated focus entry under its key on the fallback output,
/// unless that key already has a remembered window.
fn adopt_migrated_focus(history: &mut VecMap<FocusKey, u64>, migrated: &Vec<(FocusKey, u64)>, fallback: OutputId, count: u8)
    requires
        old(history).wf(),
    ensures
        final(history).wf(),
        forall|key: FocusKey| #[trigger] final(history)@.contains_key(key) == (old(history)@.contains_key(key)
            || exists|j: int| 0 <= j < migrated@.len() && key == migrated_key((#[trigger] migrated@[j]).0, fallback, count)),
        forall|key: FocusKey| #[trigger] old(history)@.contains_key(key) ==> final(history)@[key] == old(history)@[key],
        forall|key: FocusKey| #[trigger] final(history)@.contains_key(key) && !old(history)@.contains_key(key)
            ==> exists|j: int| 0 <= j < migrated@.len() && key == migrated_key((#[trigger] migrated@[j]).0, fallback, count)
                && final(history)@[key] == migrated@[j].1,
{
    let ghost start = history@;
    let mut m: usize = 0;
    while m < migrated.len()
        invariant
            history.wf(),
            m <= migrated@.len(),
            forall|key: FocusKey| #[trigger] history@.contains_key(key) == (start.contains_key(key)
                || exists|j: int| 0 <= j < m && key == migrated_key((#[trigger] migrated@[j]).0, fallback, count)),
            forall|key: FocusKey| #[trigger] start.contains_key(key) ==> history@[key] == start[key],
            forall|key: FocusKey| #[trigger] history@.contains_key(key) && !start.contains_key(key)
                ==> exists|j: int| 0 <= j < m && key == migrated_key((#[trigger] migrated@[j]).0, fallback, count)
                    && history@[key] == migrated@[j].1,
        decreases migrated@.len() - m,
    {
        let (old_key, window) = migrated[m];
        let lowered = if old_key.workspace < count { old_key.workspace } else { count };
        let key = FocusKey { output: fallback, workspace: if lowered > 1 { lowered } else { 1 } };
        if !history.contains_key(&key) {
            history.insert(key, window);
        }
        proof {
            assert(key == migrated_key(migrated@[m as int].0, fallback, count));
            assert forall|q: FocusKey| #[trigger] history@.contains_key(q) == (start.contains_key(q)
                || exists|j: int| 0 <= j < m + 1 && q == migrated_key((#[trigger] migrated@[j]).0, fallback, count)) by {
                if q == key {
                    assert(0 <= m < m + 1);
                }
            }
            assert forall|q: FocusKey| #[trigger] history@.contains_key(q) && !start.contains_key(q)
                implies exists|j: int| 0 <= j < m + 1 && q == migrated_key((#[trigger] migrated@[j]).0, fallback, count)
                    && history@[q] == migrated@[j].1 by {
                if q == key && !(exists|j: int| 0 <= j < m && q == migrated_key((#[trigger] migrated@[j]).0, fallback, count)) {
                    assert(0 <= m < m + 1);
                }
            }
        }
        m = m + 1;
    }
}

impl WaylandFrontend {
    /// Migrates all ownership away from disconnected outputs while leaving
    /// surviving monitors on their current workspace. Reconnected outputs are
    /// new session state and start on workspace one.
    pub fn reconcile_workspace_outputs(&mut self)
        requires
            old(self).wf(),
        ensures
            final(self).wf(),
            old(self)@.reconciled_outputs(final(self)@),
    {
        let ghost start = self@;
        let outputs = copy_outputs(&self.outputs);
        let count = self.workspace_count;
        let fallback = match self.ticker_output {
            Some(ticker) => if lists_output(&outputs, ticker) {
                Some(ticker)
            } else if outputs.len() > 0 {
                Some(outputs[0])
            } else {
                None
            },
            None => if outputs.len() > 0 {
                Some(outputs[0])
            } else {
                None
            },
        };
        assert(fallback == start.spec_reconcile_fallback());

        adopt_active_workspaces(&mut self.active_workspaces, &outputs);
        let migrated = unlisted_focus(&self.workspace_focus_history, &outputs);
        let present_key = |key: FocusKey, _window: u64| -> (keep: bool)
            ensures keep == outputs@.contains(key.output)
        { lists_output(&outputs, key.output) };
        self.workspace_focus_history.retain(present_key);
        let ghost retained = self.workspace_focus_history@;

        match fallback {
            None => {
                let forget_placement = |_id: u64, record: WindowRecord| -> (cleared: WindowRecord)
                    ensures cleared == (WindowRecord { workspace: None, minimized_output: None, ..record })
                { unplaced_record(record) };
                self.window_registry.windows.map_values(forget_placement);
                self.workspace_focus_history.clear();
                proof {
                    FrontendView::lemma_ids_frame(start, self@);
                    assert(self@.focus_history =~= Map::<FocusKey, u64>::empty());
                }
            },
            Some(fallback) => {
                adopt_migrated_focus(&mut self.workspace_focus_history, &migrated, fallback, count);
                let relocate = |_id: u64, record: WindowRecord| -> (moved: WindowRecord)
                    ensures moved == migrate_record(outputs@, count, record, fallback)
                { migrated_record(record, &outputs, count, fallback) };
                self.window_registry.windows.map_values(relocate);
                proof {
                    FrontendView::lemma_ids_frame(start, self@);
                    let after = self@;
                    assert forall|key: FocusKey| #[trigger] after.focus_history.contains_key(key) == (
                        (start.focus_history.contains_key(key) && start.output_present(key.output))
                        || exists|old_key: FocusKey| #[trigger] start.migrates_to(old_key, fallback, key)) by {
                        if exists|j: int| 0 <= j < migrated@.len() && key == migrated_key((#[trigger] migrated@[j]).0, fallback, count) {
                            let j = choose|j: int| 0 <= j < migrated@.len() && key == migrated_key((#[trigger] migrated@[j]).0, fallback, count);
                            assert(start.migrates_to(migrated@[j].0, fallback, key));
                        }
                        if exists|old_key: FocusKey| #[trigger] start.migrates_to(old_key, fallback, key) {
                            let old_key = choose|old_key: FocusKey| #[trigger] start.migrates_to(old_key, fallback, key);
                            let j = choose|j: int| 0 <= j < migrated@.len() && #[trigger] migrated@[j].0 == old_key;
                            assert(key == migrated_key(migrated@[j].0, fallback, count));
                        }
                    }
                    assert forall|key: FocusKey|
                        #[trigger] after.focus_history.contains_key(key) && !(start.focus_history.contains_key(key)
                            && start.output_present(key.output)) implies exists|old_key: FocusKey|
                            #[trigger] start.migrates_to(old_key, fallback, key) && after.focus_history[key]
                                == start.focus_history[old_key] by {
                        assert(!retained.contains_key(key));
                        let j = choose|j: int| 0 <= j < migrated@.len() && key == migrated_key((#[trigger] migrated@[j]).0, fallback, count)
                            && after.focus_history[key] == migrated@[j].1;
                        assert(start.migrates_to(migrated@[j].0, fallback, key));
                    }
                }
            },
        }
    }
}

/// An exact copy of an output list.
fn copy_outputs(outputs: &Vec<OutputId>) -> (copy: Vec<OutputId>)
    ensures
        copy@ == outputs@,
{
    let mut copy: Vec<OutputId> = Vec::new();
    let mut i: usize = 0;
    while i < outputs.len()
        invariant
            i <= outputs@.len(),
            copy@ == outputs@.subrange(0, i as int),
        decreases outputs@.len() - i,
    {
        copy.push(outputs[i]);
        i = i + 1;
        assert(copy@ =~= outputs@.subrange(0, i as int));
    }
    assert(copy@ =~= outputs@);
    copy
}

/// A record placed on no workspace and remembering no output.
fn unplaced_record(record: WindowRecord) -> (cleared: WindowRecord)
    ensures
        cleared == (WindowRecord { workspace: None, minimized_output: None, ..record }),
{
    WindowRecord { workspace: None, minimized_output: None, ..record }
}

/// A record moved off disconnected outputs, see [`migrate_record`].
fn migrated_record(record: WindowRecord, outputs: &Vec<OutputId>, count: u8, fallback: OutputId) -> (moved: WindowRecord)
    ensures
        moved == migrate_record(outputs@, count, record, fallback),
{
    let workspace = match record.workspace {
        Some(location) => {
            let output = if lists_output(outputs, location.output) {
                location.output
            } else {
                fallback
            };
            let lowered = if location.workspace < count { location.workspace } else { count };
            Some(WorkspaceLocation { output, workspace: if lowered > 1 { lowered } else { 1 } })
        },
        None => None,
    };
    let minimized_output = match record.minimized_output {
        Some(output) => Some(if lists_output(outputs, output) { output } else { fallback }),
        None => None,
    };
    WindowRecord { workspace, minimized_output, ..record }
}

/// Whether `outputs` lists `output`.
fn lists_output(outputs: &Vec<OutputId>, output: OutputId) -> (listed: bool)
    ensures
        listed == outputs@.contains(output),
{
    let mut i: usize = 0;
    while i < outputs.len()
        invariant
            i <= outputs@.len(),
            forall|j: int| 0 <= j < i ==> outputs@[j] != output,
        decreases outputs@.len() - i,
    {
        if outputs[i].same(&output) {
            return true;
        }
        i = i + 1;
    }
    false
}

/// A record under new workspace settings.
fn settled_record(record: WindowRecord, settings: WorkspaceSettings) -> (settled: WindowRecord)
    ensures
        settled == settle_record(record, settings),
{
    match record.workspace {
        Some(location) => {
            let workspace = if settings.enabled {
                if location.workspace < settings.count { location.workspace } else { settings.count }
            } else {
                1
            };
            WindowRecord { workspace: Some(WorkspaceLocation { workspace, ..location }), ..record }
        },
        None => record,
    }
}

} // verus!

verus! {

impl FrontendView {
    /// No window is both placed on a workspace and remembering an output to
    /// return to after minimize.
    pub open spec fn placement_exclusive(self) -> bool {
        forall|id: u64| #[trigger] self.windows.contains_key(id) ==> !(self.windows[id].workspace is Some
            && self.windows[id].minimized_output is Some)
    }

    /// At least one workspace exists, and every active workspace and every
    /// window placement names one of them.
    pub open spec fn workspaces_in_range(self) -> bool {
        &&& self.workspace_count >= 1
        &&& forall|raw: u64| #[trigger] self.active_workspaces.contains_key(raw)
            ==> self.workspace_in_range(self.active_workspaces[raw])
        &&& forall|id: u64| #[trigger] self.windows.contains_key(id) && self.windows[id].workspace is Some
            ==> self.workspace_in_range(self.windows[id].workspace.unwrap().workspace)
    }
}

/// A normal window belongs to exactly one workspace and a minimized window to
/// none: every operation keeps placement and the remembered minimize output
/// mutually exclusive.
pub proof fn law_placement_stays_exclusive(
    view: FrontendView,
    id: u64,
    output: OutputId,
    minimized: bool,
    requested: Option<OutputId>,
    monitor_id: i64,
    workspace: u8,
    settings: WorkspaceSettings,
    after_reconcile: FrontendView,
)
    requires
        view.placement_exclusive(),
        view.reconciled_outputs(after_reconcile),
    ensures
        view.spec_reconcile_workspace_assignment(id, output, minimized).0.placement_exclusive(),
        view.spec_mark_window_minimized(id, output).placement_exclusive(),
        view.spec_restore_window_workspace(id).0.placement_exclusive(),
        view.spec_record_workspace_focus(id).placement_exclusive(),
        view.spec_switch_workspace(monitor_id, workspace).0.placement_exclusive(),
        view.spec_move_window_to_workspace(id, requested, workspace).0.placement_exclusive(),
        view.spec_set_workspace_settings(settings).0.placement_exclusive(),
        after_reconcile.placement_exclusive(),
{
    let settled = view.spec_set_workspace_settings(settings).0;
    assert forall|w: u64| #[trigger] settled.windows.contains_key(w) implies !(settled.windows[w].workspace is Some
        && settled.windows[w].minimized_output is Some) by {
        assert(view.windows.contains_key(w));
    }
    assert forall|w: u64| #[trigger] after_reconcile.windows.contains_key(w) implies !(
    after_reconcile.windows[w].workspace is Some && after_reconcile.windows[w].minimized_output is Some) by {
        assert(view.windows.contains_key(w));
    }
}

/// With at least one workspace configured, every operation keeps active
/// workspaces and window placements within `1..=count`.
pub proof fn law_workspaces_stay_in_range(
    view: FrontendView,
    id: u64,
    output: OutputId,
    minimized: bool,
    requested: Option<OutputId>,
    monitor_id: i64,
    workspace: u8,
    settings: WorkspaceSettings,
    after_reconcile: FrontendView,
)
    requires
        view.workspaces_in_range(),
        settings.count >= 1,
        view.reconciled_outputs(after_reconcile),
    ensures
        view.spec_reconcile_workspace_assignment(id, output, minimized).0.workspaces_in_range(),
        view.spec_mark_window_minimized(id, output).workspaces_in_range(),
        view.spec_restore_window_workspace(id).0.workspaces_in_range(),
        view.spec_record_workspace_focus(id).workspaces_in_range(),
        view.spec_switch_workspace(monitor_id, workspace).0.workspaces_in_range(),
        view.spec_move_window_to_workspace(id, requested, workspace).0.workspaces_in_range(),
        view.spec_set_workspace_settings(settings).0.workspaces_in_range(),
        after_reconcile.workspaces_in_range(),
{
    let settled = view.spec_set_workspace_settings(settings).0;
    assert forall|raw: u64| #[trigger] settled.active_workspaces.contains_key(raw)
        implies settled.workspace_in_range(settled.active_workspaces[raw]) by {
        assert(view.active_workspaces.contains_key(raw));
    }
    assert forall|w: u64| #[trigger] settled.windows.contains_key(w) && settled.windows[w].workspace is Some
        implies settled.workspace_in_range(settled.windows[w].workspace.unwrap().workspace) by {
        assert(view.windows.contains_key(w));
    }
    assert forall|raw: u64| #[trigger] after_reconcile.active_workspaces.contains_key(raw)
        implies after_reconcile.workspace_in_range(after_reconcile.active_workspaces[raw]) by {
        assert(view.output_present(OutputId(raw)));
    }
    assert forall|w: u64| #[trigger] after_reconcile.windows.contains_key(w) && after_reconcile.windows[w].workspace is Some
        implies after_reconcile.workspace_in_range(after_reconcile.windows[w].workspace.unwrap().workspace) by {
        assert(view.windows.contains_key(w));
    }
}

/// Minimizing and then restoring a window attaches it to the currently
/// active workspace of the output it was on (or of the fallback output it was
/// minimized with), as long as that output is still connected.
pub proof fn law_minimize_then_restore(view: FrontendView, id: u64, fallback: OutputId)
    requires
        ({
            let preferred = match view.record(id).workspace {
                Some(location) => location.output,
                None => fallback,
            };
            view.output_present(preferred)
        }),
    ensures
        ({
            let preferred = match view.record(id).workspace {
                Some(location) => location.output,
                None => fallback,
            };
            let minimized = view.spec_mark_window_minimized(id, fallback);
            &&& minimized.spec_workspace_location(id) is None
            &&& minimized.spec_restore_window_workspace(id).1 == Some(
                WorkspaceLocation { output: preferred, workspace: view.active_workspace(preferred) },
            )
        }),
{
}

/// A successful switch shows the requested workspace on the monitor's output:
/// exactly the windows placed on it become visible there, and other outputs
/// keep what they showed.
pub proof fn law_switch_shows_requested_workspace(view: FrontendView, monitor_id: i64, workspace: u8, id: u64)
    requires
        view.spec_switch_workspace(monitor_id, workspace).1,
    ensures
        ({
            let after = view.spec_switch_workspace(monitor_id, workspace).0;
            let output = spec_monitor_output(monitor_id).unwrap();
            &&& after.active_workspace(output) == workspace
            &&& forall|other: OutputId| other != output ==> #[trigger] after.active_workspace(other)
                == view.active_workspace(other)
            &&& (view.spec_workspace_location(id) matches Some(location) && location.output == output)
                ==> (after.spec_window_is_on_active_workspace(id) <==> view.spec_workspace_location(id).unwrap().workspace
                == workspace)
        }),
{
}

/// Stepping between workspaces wraps around: from any active workspace the
/// result is a workspace in `1..=count`, one step forward from the last is the
/// first, and one step back from the first is the last.
pub proof fn law_adjacent_workspace_wraps(view: FrontendView, monitor_id: i64, delta: i8)
    requires
        view.workspaces_enabled,
        view.workspace_count >= 1,
        view.spec_active_workspace_for_monitor(monitor_id) matches Some(current) && view.workspace_in_range(current),
    ensures
        view.spec_adjacent_workspace(monitor_id, delta) matches Some(next) && view.workspace_in_range(next),
        view.spec_active_workspace_for_monitor(monitor_id) == Some(view.workspace_count)
            ==> view.spec_adjacent_workspace(monitor_id, 1i8) == Some(1u8),
        view.spec_active_workspace_for_monitor(monitor_id) == Some(1u8)
            ==> view.spec_adjacent_workspace(monitor_id, -1i8) == Some(view.workspace_count),
        (view.spec_active_workspace_for_monitor(monitor_id) matches Some(current) && current < view.workspace_count)
            ==> view.spec_adjacent_workspace(monitor_id, 1i8) == Some((view.spec_active_workspace_for_monitor(monitor_id).unwrap() + 1) as u8),
{
    let current = view.spec_active_workspace_for_monitor(monitor_id).unwrap();
    let count = view.workspace_count as int;
    let r = (current as int - 1 + delta as int) % count;
    assert(0 <= r < count);
    if current == view.workspace_count {
        assert((count - 1 + 1) % count == 0) by (nonlinear_arith)
            requires
                count >= 1,
        ;
    }
    if current == 1 {
        assert((1 - 1 + (-1)) % count == count - 1) by (nonlinear_arith)
            requires
                count >= 1,
        ;
    }
    if current < view.workspace_count {
        assert((current as int - 1 + 1) % count == current as int) by (nonlinear_arith)
            requires
                1 <= current < count,
        ;
    }
}

/// Disabling workspaces merges everything into workspace one, so every
/// window counts as shown; lowering the count merges removed workspaces into
/// the highest remaining one.
pub proof fn law_settings_merge_workspaces(view: FrontendView, settings: WorkspaceSettings, id: u64)
    requires
        view.spec_set_workspace_settings(settings).1,
        view.windows.contains_key(id),
        view.windows[id].workspace is Some,
    ensures
        ({
            let after = view.spec_set_workspace_settings(settings).0;
            let before_workspace = view.windows[id].workspace.unwrap().workspace;
            &&& !settings.enabled ==> after.spec_workspace_location(id).unwrap().workspace == 1
                && after.spec_window_is_on_active_workspace(id)
            &&& settings.enabled && before_workspace > settings.count
                ==> after.spec_workspace_location(id).unwrap().workspace == settings.count
            &&& settings.enabled && before_workspace <= settings.count
                ==> after.spec_workspace_location(id).unwrap().workspace == before_workspace
        }),
{
}

/// After outputs are reconciled, workspaces, placements, remembered outputs
/// and remembered focus all belong to connected outputs only.
pub proof fn law_reconciled_ownership_is_connected(view: FrontendView, after: FrontendView)
    requires
        view.reconciled_outputs(after),
    ensures
        forall|raw: u64| #[trigger] after.active_workspaces.contains_key(raw) ==> after.output_present(OutputId(raw)),
        forall|id: u64| #[trigger] after.windows.contains_key(id) && after.windows[id].workspace is Some
            ==> after.output_present(after.windows[id].workspace.unwrap().output),
        forall|id: u64| #[trigger] after.windows.contains_key(id) && after.windows[id].minimized_output is Some
            ==> after.output_present(after.windows[id].minimized_output.unwrap()),
        forall|key: FocusKey| #[trigger] after.focus_history.contains_key(key) ==> after.output_present(key.output),
{
    match view.spec_reconcile_fallback() {
        None => {},
        Some(fallback) => {
            assert(view.output_present(fallback)) by {
                if !(view.ticker_output matches Some(ticker) && view.output_present(ticker)) {
                    assert(view.outputs.contains(view.outputs[0]));
                }
            }
            assert forall|id: u64| #[trigger] after.windows.contains_key(id) && after.windows[id].workspace is Some
                implies after.output_present(after.windows[id].workspace.unwrap().output) by {
                assert(view.windows.contains_key(id));
            }
            assert forall|id: u64| #[trigger] after.windows.contains_key(id) && after.windows[id].minimized_output is Some
                implies after.output_present(after.windows[id].minimized_output.unwrap()) by {
                assert(view.windows.contains_key(id));
            }
            assert forall|key: FocusKey| #[trigger] after.focus_history.contains_key(key) implies after.output_present(key.output) by {
                if !(view.focus_history.contains_key(key) && view.output_present(key.output)) {
                    let old_key = choose|old_key: FocusKey| #[trigger] view.migrates_to(old_key, fallback, key);
                }
            }
        },
    }
}

/// Focus recorded on a workspace is what that workspace remembers; and a
/// window that is minimized or moved is no workspace's remembered focus.
pub proof fn law_focus_history(view: FrontendView, id: u64, fallback: OutputId, requested: Option<OutputId>, workspace: u8)
    ensures
        (view.spec_workspace_location(id) matches Some(location) && location.output.0 <= i64::MAX as u64)
            ==> view.spec_record_workspace_focus(id).spec_remembered_workspace_focus(
            view.spec_workspace_location(id).unwrap().output.0 as i64,
            view.spec_workspace_location(id).unwrap().workspace,
        ) == Some(id),
        forall|key: FocusKey| #[trigger] view.spec_mark_window_minimized(id, fallback).focus_history.contains_key(key)
            ==> view.spec_mark_window_minimized(id, fallback).focus_history[key] != id,
        view.spec_move_window_to_workspace(id, requested, workspace).1 is Some ==> forall|key: FocusKey|
            #[trigger] view.spec_move_window_to_workspace(id, requested, workspace).0.focus_history.contains_key(key)
            ==> view.spec_move_window_to_workspace(id, requested, workspace).0.focus_history[key] != id,
{
}

/// Reconciling a window that is not minimized on an output that is present
/// places it: a window already on that output keeps its workspace, whatever
/// the output shows now; only a window with no workspace, or one coming from
/// another output, joins the workspace the output shows. The window's
/// recorded location is the one returned.
pub proof fn law_reconcile_keeps_workspace_on_same_output(view: FrontendView, id: u64, output: OutputId)
    requires
        view.output_present(output),
    ensures
        ({
            let (after, location) = view.spec_reconcile_workspace_assignment(id, output, false);
            let joined = Some(WorkspaceLocation { output, workspace: view.active_workspace(output) });
            &&& location == match view.spec_workspace_location(id) {
                Some(current) => if current.output == output {
                    Some(current)
                } else {
                    joined
                },
                None => joined,
            }
            &&& after.spec_workspace_location(id) == location
        }),
{
}

/// A workspace switch between two reconciles of a window on the same output
/// does not move the window: the second reconcile returns the location the
/// first one gave.
pub proof fn law_switch_between_reconciles_keeps_window(
    view: FrontendView,
    id: u64,
    output: OutputId,
    monitor_id: i64,
    workspace: u8,
)
    requires
        view.output_present(output),
    ensures
        ({
            let (placed, first) = view.spec_reconcile_workspace_assignment(id, output, false);
            let switched = placed.spec_switch_workspace(monitor_id, workspace).0;
            let (_, second) = switched.spec_reconcile_workspace_assignment(id, output, false);
            second == first
        }),
{
    let (placed, first) = view.spec_reconcile_workspace_assignment(id, output, false);
    let switched = placed.spec_switch_workspace(monitor_id, workspace).0;
    assert(switched.windows == placed.windows);
    assert(switched.outputs == placed.outputs);
    assert(placed.windows.contains_key(id));
}

} // verus!
