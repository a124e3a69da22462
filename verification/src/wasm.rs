//! Sandboxed WebAssembly workloads: resource limits, fault classification and
//! the life cycle of an instance.
pub mod fault;
pub mod fuel;
pub mod host;
pub mod instantiate;
pub mod invocation_run;
pub mod invocations;
pub mod limits;
pub mod resident;
pub mod wit;
