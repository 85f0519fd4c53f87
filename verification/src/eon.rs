//! Sparkplug edge node side: birth messages, metric publishing, devices and
//! the node's session state.

pub mod birth;
pub mod device;
pub mod manager;
pub mod metric;
pub mod node;
pub mod registry;
pub mod simple;
pub mod value;
