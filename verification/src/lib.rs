//! Execution substrate for gas-metered WebAssembly programs: a static
//! instrumentation pass that injects deterministic gas/allowance accounting
//! into a module, a host environment that resolves imports against a
//! registered host-function table and drives one bounded execution, and a
//! lazy memory-virtualization layer that materializes guest pages on first
//! touch and tracks exactly which pages were accessed.

pub mod charge;
pub mod env;
pub mod ext;
pub mod inject;
pub mod lazy;
pub mod memory;
pub mod module;
pub mod rules;

pub use inject::inject;
