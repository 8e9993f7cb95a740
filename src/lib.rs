//! Policy for a single transparent overlay window: it is created at most once
//! under a well-known label, always with the same attributes, and the only thing
//! that changes afterwards is whether it lets pointer input pass through.

pub mod window;
pub mod registry;
