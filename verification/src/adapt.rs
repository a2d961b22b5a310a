//! The adapter-based core: channel bindings, registries, plugins and the
//! per-event decisions of its application loop.
pub mod binding;
pub mod plugin;
pub mod native;
pub mod app;
pub mod wasm;
