//! The versioned workspace: checkpoints, diffs, redo journals and recovery plans.

pub mod change_order;
pub mod compaction_laws;
pub mod diff;
pub mod diff_laws;
pub mod entry;
pub mod error;
pub mod journal;
pub mod lines;
pub mod maintenance;
pub mod object;
pub mod operation;
pub mod paths;
pub mod plan;
pub mod redo_laws;
pub mod replay_laws;
pub mod restore;
pub mod session;
pub mod snapshot;
pub mod store;
pub mod tree;

pub use diff::{WorkspaceChange, WorkspaceChangeKind, WorkspaceDiff};
pub use entry::WorkspaceEntry;
pub use error::FsError;
pub use journal::{WorkspaceJournalEvent, WorkspaceJournalOp};
pub use operation::{WorkspaceOperation, WorkspaceOperationEvent};
pub use session::{
    VersionedRunOutcome, VersionedRunSession, WorkspaceOperationRecorder,
    WorkspaceOperationRecorderOutcome, WorkspaceTransaction,
};
pub use store::{
    WorkspaceCheckpoint, WorkspaceCheckpointSummary, WorkspaceCommitReport, WorkspaceGcReport,
    WorkspaceMaterializeReport, WorkspaceOperationReplayReport, WorkspaceReplayReport,
    WorkspaceRollbackReport, WorkspaceStatusReport, WorkspaceStore, WorkspaceVerifyReport,
};
