//! Verified policy core of the Denial compositor daemon.
pub mod topology;

pub mod event_loop;
pub mod vec_map;
pub mod geometry;
pub mod presentation;
pub mod frontend;
pub mod window_registry;
pub mod workspace;
pub mod gamma_lut;
pub mod gamma_protocol;
pub mod gamma_control;
pub mod xim;
pub mod xwayland;
pub mod window_management;
pub mod layer_shell;
pub mod settings;
