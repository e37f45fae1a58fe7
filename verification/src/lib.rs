//! Satur8: per-game digital vibrance for Linux, the verified core.
//!
//! Every backend applies the same saturation to the display; this crate holds
//! the decisions around it: which backend a session prefers, how a running game
//! is matched to a profile, where the profiles file lives, which CRTCs a DRM
//! colour matrix is written to and how that matrix is packed, what the focus
//! daemon does when the active window changes, and how the desktop app lists
//! running games and finds their Steam art.

pub mod apps;
pub mod backend;
pub mod config;
pub mod ctm;
pub mod drm;
pub mod env;
pub mod focus;
pub mod games;
pub mod launch;
pub mod nv;
pub mod profile;
pub mod steam;
pub mod text;
