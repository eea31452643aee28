pub mod hash;
pub mod mime;
pub mod store;
pub mod watcher;
pub mod wayland;
