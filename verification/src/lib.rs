//! Shared k8s sidecar runtime inherited by product `*-sidecar.rs` crates.
//!
//! A sidecar listens on loopback HTTP for `/healthz`, `/readyz`, and `/metrics`. The
//! dual-stream receiver is transport-only and never makes product backend/export
//! policy decisions. Diagnostics are closed lines of JSON. Beside the sidecar itself
//! the crate holds the policy by which a host agent suspends and resumes idle
//! workloads.
//!
//! Everything here computes: from requests, records, documents and replies to answers,
//! decisions and next states. Sockets, files, clocks, processes and locks belong to the
//! program around it.

pub mod adapters;
pub mod apm;
pub mod bind;
pub mod cli;
pub mod config;
pub mod error;
pub mod file_config;
pub mod health;
pub mod hooks;
pub mod http;
pub mod identity;
pub mod json;
pub mod log;
pub mod probe;
pub mod process_lifecycle;
pub mod process_lifecycle_agent;
pub mod process_lifecycle_record;
pub mod receiver;
pub mod runtime;
pub mod runtime_updates;
pub mod runtime_values;
pub mod shared_values;
pub mod startup_env;
pub mod text;
pub mod text_map;

pub use cli::{CliError, CliResolution, SidecarCommand};
pub use config::SidecarConfig;
pub use error::SidecarError;
pub use file_config::{
    OresSidecarFile, ResolvedSidecarFile, RuntimeUpdateMode, RuntimeUpdatePolicy,
    RuntimeUpdateProvider, RuntimeValueDefinition, SidecarDefinition, CONFIG_PROTOCOL,
    DEFAULT_CONFIG_PATH as DEFAULT_SIDECAR_CONFIG_PATH, MAX_RECONCILE_SECONDS,
};
pub use health::Health;
pub use hooks::{DefaultOverrides, SidecarOverrides};
pub use identity::{SidecarEnv, SidecarIdentity};
pub use probe::{NoopProbe, ProductProbe};
pub use receiver::{
    ReceiverError, ReceiverFrame, ReceiverLimits, DEFAULT_MAX_DATA_CHUNK_BYTES,
    DEFAULT_MAX_METADATA_LINE_BYTES,
};
pub use runtime_updates::{
    RuntimeUpdateBatch, RuntimeUpdateController, RuntimeUpdateOperation, RuntimeUpdateOutcome,
    RuntimeUpdateState, RuntimeUpdateTarget, MAX_RUNTIME_KEYSPACE_SEGMENT_BYTES,
    MAX_SAFE_RUNTIME_REVISION,
};
pub use runtime_values::{is_sensitive_runtime_key, RuntimeValueUpdate, RuntimeValues};
pub use shared_values::SharedRuntimeValues;
pub use startup_env::{preflight_startup, preflight_startup_with_keys, StartupEnv};
