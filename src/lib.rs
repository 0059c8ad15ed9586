//! A small control plane for virtual-machine processes: a registry of the
//! machines that were started, the decisions of the process supervisor, and a
//! relay between a client connection and a machine's console.
pub mod bridge;
pub mod model;
pub mod registry;
pub mod supervisor;

pub use model::{StartVm, VmError, VmHandle, VmState};
pub use registry::{Registry, VmContext};
