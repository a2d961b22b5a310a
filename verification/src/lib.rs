//! A multi-platform chat bot framework: event routing, plugin bindings,
//! sessions, configuration expansion and platform protocol decisions.

pub mod args;
pub mod text;
pub mod name_map;
pub mod config;
pub mod glob;
pub mod bot;
pub mod sdk;
pub mod adapt;
pub mod registry;
pub mod qq;
pub mod plugins;
