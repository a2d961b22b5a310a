//! Plugins shipped with the framework.
pub mod dice;
pub mod hello;
