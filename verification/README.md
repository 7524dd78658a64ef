# deniald policy core

The decisions of the Denial compositor daemon, as a Verus-verified library,
with a small program around it that talks to devices.

`src/` holds the logic, each function with a contract proved by Verus:

- `gamma_lut`, `gamma_control`, `gamma_protocol`: DRM gamma LUT encoding,
  ownership of each CRTC's LUT shared by software dimming and Wayland
  gamma-control clients, and the protocol state of those clients.
- `event_loop`, `topology`: the event loop's cadence, timeouts, topology
  rescans and output-configuration confirmations.
- `frontend`, `window_registry`, `workspace`, `presentation`, `geometry`,
  `window_management`, `layer_shell`: window records, monitor-local
  workspaces, shell maximize and fullscreen, sizing rules, client state
  requests and layer-shell focus.
- `xim`, `settings`, `xwayland`: XIM server selection, settings-file
  notifications, and the Xwayland facade of a build without X11.
- `vec_map`: the association list the tables above are built on.

Laws that relate several operations are public proof functions whose names
start with `law_`.

`app/` is the program: DRM gamma probing and blob installation, reading
client gamma tables, XIM discovery over X11, and the settings watch. It
hands the library plain values and acts on what it returns.

`tests/` runs the library on concrete values.

## Left out

Some of the daemon's window handling lives in parts of the compositor that
this crate does not have: the Smithay layer maps and seat, the managed
layouts, the focus, activation and placement queues, and the local Flutter
windows. These are not here:

- the layer-shell lookups `layer_root_surface`, `layer_surface_for_surface`,
  `layer_keyboard_focus_for_surface` and `set_layer_surface_scale`, and the
  frontend's lookup of the layer surface a commit belongs to;
- the focused-toplevel actions `minimize_focused_toplevel`,
  `minimize_all_toplevels`, `minimize_toplevel_by_id`,
  `close_focused_toplevel`, `close_toplevel_by_id` and
  `swap_toplevel_in_direction`;
- the local Flutter window items (creating, configuring, focusing and
  closing compositor-drawn windows).

Their decisions that rest on plain facts are in `src/`:
`exclusive_layer_keyboard_focus`, `commit_layer_surface` and
`layer_surface_output` in `layer_shell`, `client_window_minimizable`,
`toggle_window_pinned` and the minimize bookkeeping of `window_registry` and
`workspace`, and `route_toplevel_by_id` and `route_focused_toplevel`, which
send a minimize or close to a local or a client window.

The window tables are association lists (`VecMap`, `RampTable`) rather than
`HashMap` or `BTreeMap`: some are keyed by `FocusKey`, a struct of this
crate, and the contracts walk the entries in a fixed order (retain, map,
list). Where the order of a listing matters to the device or to clients
(the gamma outputs to update, their table sizes, the pending client ramps),
it is stated: increasing output identifier.
