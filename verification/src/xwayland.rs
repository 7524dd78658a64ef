//! The Xwayland facade of a build without X11 support, and the messages
//! exchanged with the optional XEmbed tray host.
//!
//! Without Xwayland there is no display, no selection bridge and no tray
//! host: every query answers that nothing is there, every request is a
//! no-op, and sending a selection fails.

use vstd::prelude::*;

use crate::frontend::WaylandFrontend;

verus! {

/// What happened to a tray icon.
#[derive(Clone, Copy, Debug, PartialEq, Eq, Structural)]
pub enum XEmbedTrayEventKind {
    Added,
    Updated,
    Removed,
}

/// A tray icon: its X window, title and RGBA pixels.
#[derive(Debug)]
pub struct XEmbedTrayIcon {
    pub window_id: u32,
    pub title: String,
    pub width: u32,
    pub height: u32,
    pub rgba: Vec<u8>,
}

/// A change of the tray, for the shell.
#[derive(Debug)]
pub struct XEmbedTrayEvent {
    pub kind: XEmbedTrayEventKind,
    pub window_id: u32,
    pub icon: Option<XEmbedTrayIcon>,
}

/// How the shell activates a tray icon.
#[derive(Clone, Copy, Debug, PartialEq, Eq, Structural)]
pub enum XEmbedTrayAction {
    Activate,
    SecondaryActivate,
    ContextMenu,
}

/// A click on a tray icon, at shell coordinates.
#[derive(Clone, Copy, Debug, PartialEq, Eq, Structural)]
pub struct XEmbedTrayCommand {
    pub action: XEmbedTrayAction,
    pub window_id: u32,
    pub x: i32,
    pub y: i32,
}

/// Why an Xwayland request failed.
#[derive(Clone, Copy, Debug, PartialEq, Eq, Structural)]
pub enum XwaylandError {
    /// Xwayland support is not compiled in.
    Unsupported,
}

impl XwaylandError {
    pub fn message(&self) -> (message: String)
        ensures
            message@ == "Xwayland support is not compiled in"@,
    {
        match self {
            XwaylandError::Unsupported => "Xwayland support is not compiled in".to_owned(),
        }
    }
}

/// The absent Xwayland server.
#[derive(Clone, Copy, Debug, PartialEq, Eq, Structural, Default)]
pub struct XWaylandState;

impl XWaylandState {
    /// Starting succeeds whatever is asked, with nothing to run.
    pub fn start(enabled: bool, engine_scale_120: u32) -> (state: Result<XWaylandState, XwaylandError>)
        ensures
            state == Ok::<XWaylandState, XwaylandError>(XWaylandState),
    {
        Ok(XWaylandState)
    }

    /// There is no X display to name.
    pub fn display_name(&self) -> (name: Option<String>)
        ensures
            name is None,
    {
        None
    }

    /// No X window exists to raise.
    pub fn raise_windows(&mut self, windows: &Vec<u64>)
        ensures
            *final(self) == *old(self),
    {
    }

    /// There is no X selection to publish to; publishing succeeds.
    pub fn publish_selection(&mut self, mime_types: Option<Vec<String>>) -> (published: Result<(), XwaylandError>)
        ensures
            published == Ok::<(), XwaylandError>(()),
            *final(self) == *old(self),
    {
        Ok(())
    }

    /// No X client can receive a selection.
    pub fn send_selection(&mut self, mime_type: String) -> (sent: Result<(), XwaylandError>)
        ensures
            sent == Err::<(), XwaylandError>(XwaylandError::Unsupported),
            *final(self) == *old(self),
    {
        Err(XwaylandError::Unsupported)
    }

    /// The tray host never signals.
    pub fn take_xembed_event_signal(&self) -> (signalled: bool)
        ensures
            !signalled,
    {
        false
    }

    /// The tray host has no events.
    pub fn try_xembed_event(&self) -> (event: Option<XEmbedTrayEvent>)
        ensures
            event is None,
    {
        None
    }

    /// No tray icon can be activated.
    pub fn invoke_xembed(&self, command: XEmbedTrayCommand) -> (invoked: bool)
        ensures
            !invoked,
    {
        false
    }

    /// There is nothing to replay.
    pub fn request_xembed_replay(&self) {
    }
}

/// No client is an X client.
pub fn is_client(client: u64) -> (x11: bool)
    ensures
        !x11,
{
    false
}

impl WaylandFrontend {
    /// The X scale cannot change; reports that nothing changed.
    pub fn set_xwayland_scale(&mut self, engine_scale_120: u32) -> (changed: Result<bool, XwaylandError>)
        ensures
            changed == Ok::<bool, XwaylandError>(false),
            final(self)@ == old(self)@,
    {
        Ok(false)
    }

    /// There are no X settings to publish.
    pub fn publish_xwayland_settings(&mut self) -> (published: Result<(), XwaylandError>)
        ensures
            published == Ok::<(), XwaylandError>(()),
            final(self)@ == old(self)@,
    {
        Ok(())
    }

    /// There are no X clients to reconfigure.
    pub fn reconfigure_x11_for_scale(&self) -> (reconfigured: Result<(), XwaylandError>)
        ensures
            reconfigured == Ok::<(), XwaylandError>(()),
    {
        Ok(())
    }
}

} // verus!
