//! Verified core logic of a Linux container runtime: OCI runtime-config
//! validation, name and path admission, network ownership bookkeeping,
//! firewall and eBPF ownership checks, and lifecycle decisions.

pub mod text;
pub mod error;
pub mod runtime_config;
pub mod paths;
pub mod records;
pub mod network;
pub mod sysctl;
pub mod ebpf;
pub mod firewall;
pub mod firewall_plan;
pub mod admission;
pub mod capabilities;
pub mod hosts;
pub mod persisted_mounts;
pub mod pin_cleanup;
pub mod ebpf_state;
pub mod lifecycle;
pub mod settings;
pub mod hashing;
pub mod image;
pub mod rollback;
pub mod link;
pub mod host;
pub mod laws;
pub mod mounts;
pub mod creation;
pub mod launch;
pub mod recovery;
pub mod network_cleanup;
pub mod network_setup;
pub mod limits;
pub mod shared_ebpf;
pub mod admission_snapshot;
pub mod archive;
