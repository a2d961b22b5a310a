//! The bot core: events, plugin bindings, plugin factories, sessions and the
//! per-event decisions of the application loop.
pub mod binding;
pub mod events;
pub mod plugin;
pub mod session;
pub mod hello;
pub mod app;
