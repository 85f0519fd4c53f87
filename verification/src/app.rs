//! Sparkplug application side: sequencing, payload validation and node state.

pub mod application;
pub mod config;
pub mod eventloop;
pub mod events;
pub mod generic_app;
pub mod metrics;
pub mod resequencer;
