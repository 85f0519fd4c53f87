//! A Sparkplug B edge node and application framework whose message
//! handling, sequencing and state decisions are verified with Verus.

pub mod app;
pub mod client;
pub mod eon;
pub mod mqtt;
pub mod types;
mod strings;
