pub mod api;
pub mod clipboard;
pub mod config;
pub mod events;
pub mod ipc;
pub mod launcher;
pub mod paths;
pub mod sorting;
pub mod text;
