//! Core of shadox: a rootless, process-level, agent-observable sandbox runtime.

pub mod agent;
pub mod cli;
pub mod config;
pub mod diagnostics;
pub mod forms;
pub mod fuse_adapter;
pub mod json;
pub mod json_laws;
pub mod laws;
pub mod metadata;
pub mod number;
pub mod observer;
pub mod report;
pub mod run_id;
pub mod runner;
pub mod string_map;
pub mod text;
pub mod trace;
pub mod versioned_fs;

pub use config::{
    EffectivePolicy, FsSpec, LimitsSpec, ObserveSpec, ProcessSpec, SandboxProfile, SandboxSpec,
    SeccompProfile, SecuritySpec, VersionedWorkspaceSpec,
};
pub use fuse_adapter::FuseMountSpec;
pub use report::{EnvReport, RunReport, VersionedFsReport};
pub use runner::Runner;
pub use trace::{Finding, TraceEvent};
pub use versioned_fs::{
    WorkspaceChange, WorkspaceCheckpoint, WorkspaceCommitReport, WorkspaceDiff, WorkspaceGcReport,
    WorkspaceJournalEvent, WorkspaceJournalOp, WorkspaceMaterializeReport, WorkspaceOperation,
    WorkspaceOperationEvent, WorkspaceOperationRecorder, WorkspaceOperationRecorderOutcome,
    WorkspaceOperationReplayReport, WorkspaceReplayReport, WorkspaceStatusReport, WorkspaceStore,
    WorkspaceTransaction, WorkspaceVerifyReport,
};
