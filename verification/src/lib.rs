//! Decision core of an actor host: conflict-key dispatch scheduling, package
//! verification, sandboxed workload execution and error classification.
//!
//! Every module states what it does over mathematical models (sequences, maps
//! and integers) and is verified against those statements. Nothing here
//! performs I/O: callers hand in bytes, events and results, and get back
//! values and actions.
pub mod conflict_key;
pub mod dispatch;
pub mod dynclib;
pub mod executor;
pub mod hooks;
pub mod lifecycle;
pub mod message;
pub mod network_error;
pub mod octets;
pub mod pack;
pub mod protocol;
pub mod resource;
pub mod scheduler;
pub mod test_support;
pub mod text;
pub mod text_map;
pub mod time;
pub mod wasm;
pub mod wire;
pub mod workload;
