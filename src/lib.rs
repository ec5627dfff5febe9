//! Transparent, always-on-top text overlays: the verified core.
//!
//! The library holds the color codec, the registry of overlays and the
//! manager that decides, for each operation, what the GUI thread has to do.
//! Those decisions come out as [`manager::WindowCommand`] values in a FIFO
//! queue; the program around the library runs them on the toolkit's thread.
pub mod color_utils;
pub mod overlay;
pub mod registry;
pub mod window_manager;
pub mod manager;
pub mod config;
pub mod api_server;
pub mod mcp_server;
