//! The daemon's logic: the command protocol, the views that pick images,
//! rendering decisions and the command state machine.
pub mod commands;
pub mod views;
pub mod renderer;
pub mod control;
pub mod ipc;
pub mod ipc_responses;
pub mod app;
pub mod wallpaper;
