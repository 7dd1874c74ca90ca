//! A gas-metered call-dispatch engine for a minimal smart-contract host.
//!
//! A session owns a registry of deployed contracts and a monotonic gas
//! counter with a fixed ceiling.  Deploying validates a bytecode header;
//! calling routes a method name to a built-in handler (balance queries,
//! storage reads and writes, transfers) or a fixed-cost fallback, charging
//! gas before checking the ceiling.

pub mod contract;
pub mod decimal;
pub mod laws;
pub mod storage;
pub mod text;
pub mod vm;

pub use contract::WasmContract;
pub use decimal::u64_to_string;
pub use storage::Storage;
pub use vm::{VmError, WasmVM};
