//! Stable window identity and compositor-owned per-window state.

use vstd::prelude::*;

use crate::frontend::{FrontendView, WaylandFrontend, WorkspaceLocation};
use crate::geometry::{Rect, VerticalExtent};
use crate::presentation::ShellWindowPresentation;
use crate::topology::OutputId;
use crate::vec_map::VecMap;

verus! {

/// A window's identity, which is never zero.
#[derive(Clone, Copy, Debug, PartialEq, Eq, Structural, Hash, PartialOrd, Ord)]
pub struct WindowId(u64);

impl WindowId {
    pub closed spec fn raw(self) -> u64 {
        self.0
    }

    pub fn new(raw: u64) -> (id: WindowId)
        requires
            raw != 0,
        ensures
            id.raw() == raw,
    {
        WindowId(raw)
    }

    pub fn get(self) -> (raw: u64)
        ensures
            raw == self.raw(),
            raw != 0 || self.raw() == 0,
    {
        self.0
    }
}

/// Two window identities are the same exactly when their raw values are, so
/// `WindowId::new` of two nonzero values gives equal identities exactly when
/// the values are equal.
pub proof fn law_window_ids_equal_by_raw(x: WindowId, y: WindowId)
    ensures
        (x == y) <==> (x.raw() == y.raw()),
{
}

/// Compositor-owned state of one window.
#[derive(Clone, Copy, Debug, PartialEq, Eq, Structural)]
pub struct WindowRecord {
    /// The geometry a client maximize or fullscreen replaced.
    pub restore_geometry: Option<Rect>,
    pub shell_presentation: Option<ShellWindowPresentation>,
    pub minimized: bool,
    pub pinned: bool,
    pub visible: bool,
    /// The workspace a normal window belongs to.
    pub workspace: Option<WorkspaceLocation>,
    /// The output a minimized window returns to.
    pub minimized_output: Option<OutputId>,
    /// The vertical position and height a vertical maximize replaced.
    pub vertical_restore: Option<VerticalExtent>,
}

impl WindowRecord {
    pub open spec fn spec_empty() -> WindowRecord {
        WindowRecord {
            restore_geometry: None,
            shell_presentation: None,
            minimized: false,
            pinned: false,
            visible: false,
            workspace: None,
            minimized_output: None,
            vertical_restore: None,
        }
    }

    pub fn empty() -> (record: WindowRecord)
        ensures
            record == WindowRecord::spec_empty(),
    {
        WindowRecord {
            restore_geometry: None,
            shell_presentation: None,
            minimized: false,
            pinned: false,
            visible: false,
            workspace: None,
            minimized_output: None,
            vertical_restore: None,
        }
    }
}

impl Default for WindowRecord {
    fn default() -> (record: WindowRecord)
        ensures
            record == WindowRecord::spec_empty(),
    {
        WindowRecord::empty()
    }
}

/// The records of all known windows.
pub struct WindowRegistry {
    pub(crate) windows: VecMap<u64, WindowRecord>,
}

impl View for WindowRegistry {
    type V = Map<u64, WindowRecord>;

    open(crate) spec fn view(&self) -> Map<u64, WindowRecord> {
        self.windows@
    }
}

impl WindowRegistry {
    pub open(crate) spec fn wf(&self) -> bool {
        self.windows.wf()
    }

    pub fn new() -> (registry: WindowRegistry)
        ensures
            registry.wf(),
            registry@ == Map::<u64, WindowRecord>::empty(),
    {
        WindowRegistry { windows: VecMap::new() }
    }

    /// The record of `id`, created empty if the window had none.
    pub fn ensure(&mut self, id: WindowId) -> (record: WindowRecord)
        requires
            old(self).wf(),
        ensures
            final(self).wf(),
            record == (if old(self)@.contains_key(id.raw()) {
                old(self)@[id.raw()]
            } else {
                WindowRecord::spec_empty()
            }),
            final(self)@ == old(self)@.insert(id.raw(), record),
    {
        match self.windows.get(&id.get()) {
            Some(record) => {
                assert(self@.insert(id.raw(), record) =~= self@);
                record
            },
            None => {
                let record = WindowRecord::empty();
                self.windows.insert(id.get(), record);
                record
            },
        }
    }

    pub fn get(&self, id: WindowId) -> (record: Option<WindowRecord>)
        requires
            self.wf(),
        ensures
            record == (if self@.contains_key(id.raw()) {
                Some(self@[id.raw()])
            } else {
                None::<WindowRecord>
            }),
    {
        self.windows.get(&id.get())
    }

    /// Replaces the record of `id`.
    pub fn set(&mut self, id: WindowId, record: WindowRecord)
        requires
            old(self).wf(),
        ensures
            final(self).wf(),
            final(self)@ == old(self)@.insert(id.raw(), record),
    {
        self.windows.insert(id.get(), record);
    }

    pub fn remove(&mut self, id: WindowId) -> (record: Option<WindowRecord>)
        requires
            old(self).wf(),
        ensures
            final(self).wf(),
            final(self)@ == old(self)@.remove(id.raw()),
            record == (if old(self)@.contains_key(id.raw()) {
                Some(old(self)@[id.raw()])
            } else {
                None::<WindowRecord>
            }),
    {
        self.windows.remove(&id.get())
    }
}

/// The same record, marked invisible.
fn invisible_record(_id: u64, record: WindowRecord) -> (cleared: WindowRecord)
    ensures
        cleared == (WindowRecord { visible: false, ..record }),
{
    WindowRecord { visible: false, ..record }
}

impl FrontendView {
    pub open spec fn spec_window_id_for_surface(self, surface: u64) -> Option<u64> {
        if self.surface_ids.contains_key(surface) {
            Some(self.surface_ids[surface])
        } else {
            None
        }
    }

    pub open spec fn spec_window_record(self, id: u64) -> Option<WindowRecord> {
        if self.windows.contains_key(id) {
            Some(self.windows[id])
        } else {
            None
        }
    }

    pub open spec fn spec_window_record_for_surface(self, surface: u64) -> Option<WindowRecord> {
        match self.spec_window_id_for_surface(surface) {
            Some(id) => self.spec_window_record(id),
            None => None,
        }
    }

    pub open spec fn spec_window_is_minimized(self, id: u64) -> bool {
        self.windows.contains_key(id) && self.windows[id].minimized
    }

    pub open spec fn spec_window_id_is_visible(self, id: u64) -> bool {
        self.windows.contains_key(id) && self.windows[id].visible
    }
}

impl WaylandFrontend {
    /// The record of `id`, or the empty record a first touch would create.
    pub(crate) fn record_or_empty(&self, id: WindowId) -> (record: WindowRecord)
        requires
            self.wf(),
        ensures
            record == self@.record(id.raw()),
    {
        match self.window_registry.get(id) {
            Some(record) => record,
            None => WindowRecord::empty(),
        }
    }

    /// Replaces the record of `id`.
    pub(crate) fn replace_record(&mut self, id: WindowId, record: WindowRecord)
        requires
            old(self).wf(),
            id.raw() != 0,
        ensures
            final(self).wf(),
            final(self)@ == old(self)@.with_record(id.raw(), record),
    {
        self.window_registry.set(id, record);
    }

    pub fn window_id_for_surface(&self, surface: u64) -> (id: Option<WindowId>)
        requires
            self.wf(),
        ensures
            match id {
                Some(id) => self@.spec_window_id_for_surface(surface) == Some(id.raw()),
                None => self@.spec_window_id_for_surface(surface) is None,
            },
    {
        match self.surface_ids.get(&surface) {
            Some(raw) => Some(WindowId::new(raw)),
            None => None,
        }
    }

    /// The record of window `id`.
    pub fn window_record(&self, id: u64) -> (record: Option<WindowRecord>)
        requires
            self.wf(),
            id != 0,
        ensures
            record == self@.spec_window_record(id),
    {
        self.window_registry.get(WindowId::new(id))
    }

    /// The record of the window a surface belongs to.
    pub fn window_record_for_surface(&self, surface: u64) -> (record: Option<WindowRecord>)
        requires
            self.wf(),
        ensures
            record == self@.spec_window_record_for_surface(surface),
    {
        match self.window_id_for_surface(surface) {
            Some(id) => self.window_registry.get(id),
            None => None,
        }
    }

    /// Associates a surface with the window identifier the surface table
    /// assigned it, creating the window's record if it has none.
    pub fn register_window(&mut self, surface: u64, raw_id: u64) -> (id: WindowId)
        requires
            old(self).wf(),
            raw_id != 0,
        ensures
            final(self).wf(),
            id.raw() == raw_id,
            final(self)@ == (FrontendView {
                surface_ids: old(self)@.surface_ids.insert(surface, raw_id),
                windows: old(self)@.windows.insert(raw_id, old(self)@.record(raw_id)),
                ..old(self)@
            }),
    {
        self.surface_ids.insert(surface, raw_id);
        let id = WindowId::new(raw_id);
        self.window_registry.ensure(id);
        id
    }

    pub fn window_is_minimized(&self, id: u64) -> (minimized: bool)
        requires
            self.wf(),
            id != 0,
        ensures
            minimized == self@.spec_window_is_minimized(id),
    {
        match self.window_record(id) {
            Some(record) => record.minimized,
            None => false,
        }
    }

    pub fn surface_is_minimized(&self, surface: u64) -> (minimized: bool)
        requires
            self.wf(),
        ensures
            minimized == (self@.spec_window_record_for_surface(surface) matches Some(record)
                && record.minimized),
    {
        match self.window_record_for_surface(surface) {
            Some(record) => record.minimized,
            None => false,
        }
    }

    pub fn window_id_is_pinned(&self, id: u64) -> (pinned: bool)
        requires
            self.wf(),
            id != 0,
        ensures
            pinned == (self@.windows.contains_key(id) && self@.windows[id].pinned),
    {
        match self.window_record(id) {
            Some(record) => record.pinned,
            None => false,
        }
    }

    pub fn window_id_is_visible(&self, id: u64) -> (visible: bool)
        requires
            self.wf(),
            id != 0,
        ensures
            visible == self@.spec_window_id_is_visible(id),
    {
        match self.window_record(id) {
            Some(record) => record.visible,
            None => false,
        }
    }

    /// Whether a window should be sampled for input: every window is until
    /// the shell has reported visibility, afterwards only visible ones.
    pub fn window_expects_sample(&self, id: u64) -> (expects: bool)
        requires
            self.wf(),
            id != 0,
        ensures
            expects == (!self@.input_visibility_known || self@.spec_window_id_is_visible(id)),
    {
        !self.input_visibility_known || self.window_id_is_visible(id)
    }

    /// Sets a window's minimized flag, creating its record if needed.
    pub fn set_window_minimized(&mut self, id: u64, minimized: bool)
        requires
            old(self).wf(),
            id != 0,
        ensures
            final(self).wf(),
            final(self)@ == old(self)@.with_record(id, WindowRecord { minimized, ..old(self)@.record(id) }),
    {
        let window = WindowId::new(id);
        let record = self.record_or_empty(window);
        self.replace_record(window, WindowRecord { minimized, ..record });
    }

    /// Sets a window's visibility as the shell reported it.
    pub fn set_window_visible(&mut self, id: u64, visible: bool)
        requires
            old(self).wf(),
            id != 0,
        ensures
            final(self).wf(),
            final(self)@ == old(self)@.with_record(id, WindowRecord { visible, ..old(self)@.record(id) }),
    {
        let window = WindowId::new(id);
        let record = self.record_or_empty(window);
        self.replace_record(window, WindowRecord { visible, ..record });
    }

    /// Marks every window invisible, keeping everything else.
    pub fn clear_visible_windows(&mut self)
        requires
            old(self).wf(),
        ensures
            final(self).wf(),
            final(self)@ == old(self)@.with_windows(final(self)@.windows),
            final(self)@.windows.dom() == old(self)@.windows.dom(),
            forall|id: u64| #[trigger] old(self)@.windows.contains_key(id)
                ==> final(self)@.windows[id] == (WindowRecord { visible: false, ..old(self)@.windows[id] }),
    {
        self.window_registry.windows.map_values(invisible_record);
    }

    /// Flips whether a window is pinned above others and returns the new state.
    pub fn toggle_window_pinned(&mut self, id: u64) -> (pinned: bool)
        requires
            old(self).wf(),
            id != 0,
        ensures
            final(self).wf(),
            pinned == !old(self)@.record(id).pinned,
            final(self)@ == old(self)@.with_record(id, WindowRecord { pinned, ..old(self)@.record(id) }),
    {
        let window = WindowId::new(id);
        let record = self.record_or_empty(window);
        let pinned = !record.pinned;
        self.replace_record(window, WindowRecord { pinned, ..record });
        pinned
    }

    /// Removes and returns the shell presentation of a surface's window.
    pub fn take_shell_presentation(&mut self, surface: u64) -> (presentation: Option<ShellWindowPresentation>)
        requires
            old(self).wf(),
        ensures
            final(self).wf(),
            match old(self)@.spec_window_record_for_surface(surface) {
                Some(record) => presentation == record.shell_presentation && final(self)@
                    == old(self)@.with_record(
                    old(self)@.surface_ids[surface],
                    WindowRecord { shell_presentation: None, ..record },
                ),
                None => presentation is None && final(self)@ == old(self)@,
            },
    {
        let Some(id) = self.window_id_for_surface(surface) else {
            return None;
        };
        let Some(record) = self.window_registry.get(id) else {
            return None;
        };
        self.window_registry.set(id, WindowRecord { shell_presentation: None, ..record });
        record.shell_presentation
    }

    /// Records the shell presentation of a surface's window, if the surface is one.
    pub fn set_shell_presentation(&mut self, surface: u64, presentation: ShellWindowPresentation)
        requires
            old(self).wf(),
        ensures
            final(self).wf(),
            match old(self)@.spec_window_id_for_surface(surface) {
                Some(id) => final(self)@ == old(self)@.with_record(
                    id,
                    WindowRecord { shell_presentation: Some(presentation), ..old(self)@.record(id) },
                ),
                None => final(self)@ == old(self)@,
            },
    {
        if let Some(id) = self.window_id_for_surface(surface) {
            let record = self.record_or_empty(id);
            self.replace_record(id, WindowRecord { shell_presentation: Some(presentation), ..record });
        }
    }

    /// Removes and returns the restore geometry of a surface's window.
    pub fn take_restore_geometry(&mut self, surface: u64) -> (geometry: Option<Rect>)
        requires
            old(self).wf(),
        ensures
            final(self).wf(),
            match old(self)@.spec_window_record_for_surface(surface) {
                Some(record) => geometry == record.restore_geometry && final(self)@ == old(self)@.with_record(
                    old(self)@.surface_ids[surface],
                    WindowRecord { restore_geometry: None, ..record },
                ),
                None => geometry is None && final(self)@ == old(self)@,
            },
    {
        let Some(id) = self.window_id_for_surface(surface) else {
            return None;
        };
        let Some(record) = self.window_registry.get(id) else {
            return None;
        };
        self.window_registry.set(id, WindowRecord { restore_geometry: None, ..record });
        record.restore_geometry
    }

    /// Takes the vertical extent a surface's window had before a vertical
    /// maximize, leaving none.
    pub fn take_vertical_restore(&mut self, surface: u64) -> (extent: Option<VerticalExtent>)
        requires
            old(self).wf(),
        ensures
            final(self).wf(),
            match old(self)@.spec_window_record_for_surface(surface) {
                Some(record) => extent == record.vertical_restore && final(self)@ == old(self)@.with_record(
                    old(self)@.surface_ids[surface],
                    WindowRecord { vertical_restore: None, ..record },
                ),
                None => extent is None && final(self)@ == old(self)@,
            },
    {
        let Some(id) = self.window_id_for_surface(surface) else {
            return None;
        };
        let Some(record) = self.window_registry.get(id) else {
            return None;
        };
        self.window_registry.set(id, WindowRecord { vertical_restore: None, ..record });
        record.vertical_restore
    }

    /// Remembers the vertical extent a vertical maximize replaces, creating
    /// the window's record if needed. Returns whether the surface has a window.
    pub fn store_vertical_restore(&mut self, surface: u64, extent: VerticalExtent) -> (stored: bool)
        requires
            old(self).wf(),
        ensures
            final(self).wf(),
            match old(self)@.spec_window_id_for_surface(surface) {
                Some(id) => stored && final(self)@ == old(self)@.with_record(
                    id,
                    WindowRecord { vertical_restore: Some(extent), ..old(self)@.record(id) },
                ),
                None => !stored && final(self)@ == old(self)@,
            },
    {
        let Some(id) = self.window_id_for_surface(surface) else {
            return false;
        };
        let record = self.record_or_empty(id);
        self.replace_record(id, WindowRecord { vertical_restore: Some(extent), ..record });
        true
    }

    /// Stores the restore geometry of a surface's window if it has none yet,
    /// returning whether it was stored.
    pub fn store_restore_geometry(&mut self, surface: u64, geometry: Rect) -> (stored: bool)
        requires
            old(self).wf(),
        ensures
            final(self).wf(),
            match old(self)@.spec_window_id_for_surface(surface) {
                Some(id) => {
                    &&& stored == (old(self)@.record(id).restore_geometry is None)
                    &&& final(self)@ == if stored {
                        old(self)@.with_record(
                            id,
                            WindowRecord { restore_geometry: Some(geometry), ..old(self)@.record(id) },
                        )
                    } else {
                        old(self)@.with_record(id, old(self)@.record(id))
                    }
                },
                None => !stored && final(self)@ == old(self)@,
            },
    {
        let Some(id) = self.window_id_for_surface(surface) else {
            return false;
        };
        let record = self.record_or_empty(id);
        if record.restore_geometry.is_some() {
            self.replace_record(id, record);
            return false;
        }
        self.replace_record(id, WindowRecord { restore_geometry: Some(geometry), ..record });
        true
    }

    /// Forgets the restore geometry of a surface's window.
    pub fn clear_restore_geometry(&mut self, surface: u64)
        requires
            old(self).wf(),
        ensures
            final(self).wf(),
            match old(self)@.spec_window_record_for_surface(surface) {
                Some(record) => final(self)@ == old(self)@.with_record(
                    old(self)@.surface_ids[surface],
                    WindowRecord { restore_geometry: None, ..record },
                ),
                None => final(self)@ == old(self)@,
            },
    {
        let Some(id) = self.window_id_for_surface(surface) else {
            return;
        };
        if let Some(record) = self.window_registry.get(id) {
            self.window_registry.set(id, WindowRecord { restore_geometry: None, ..record });
        }
    }
}

} // verus!
