//! wallerd: the logic of a Wayland wallpaper daemon and its control client.
//!
//! The library holds the command protocol, the configuration model, the
//! image-selection views, socket naming, shader-directory resolution, the
//! shader-cache key, the daemon's command state machine and the texture
//! bookkeeping. The event loops, OpenGL and Wayland plumbing live around it.
pub mod text;
pub mod paths;
pub mod fsys;
pub mod config;
pub mod socket;
pub mod client;
pub mod daemon;
