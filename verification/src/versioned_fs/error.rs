//! Why a workspace request is refused.

use crate::number::{decimal, decimal_text};
use crate::run_id::{hyphenated, RunId};
use crate::text::{concat2, concat3};
use vstd::prelude::*;

verus! {

/// Why a workspace request is refused.
#[derive(Debug, PartialEq, Eq)]
pub enum FsError {
    EmptyPath,
    OutsidePath(String),
    InvalidContentId(String),
    MissingRenameSource(usize),
    EmptyJournal(String),
    EmptyOperationJournal(String),
    CompactedJournal(RunId),
    ForeignRunId,
    OtherBase(RunId, String),
    MissingObject(String),
    PayloadLength { seq: usize, expected: u64, found: usize },
    OffsetTooLarge(usize),
    RangeOverflow(usize),
    DestinationNotEmpty,
    UnknownCheckpoint(String),
    NoJournal(String),
    NoOperationJournal(String),
    AlreadyFinished,
}

/// The mathematical value of an error.
pub enum FsErrorView {
    EmptyPath,
    OutsidePath(Seq<char>),
    InvalidContentId(Seq<char>),
    MissingRenameSource(nat),
    EmptyJournal(Seq<char>),
    EmptyOperationJournal(Seq<char>),
    CompactedJournal(RunId),
    ForeignRunId,
    OtherBase(RunId, Seq<char>),
    MissingObject(Seq<char>),
    PayloadLength { seq: nat, expected: nat, found: nat },
    OffsetTooLarge(nat),
    RangeOverflow(nat),
    DestinationNotEmpty,
    UnknownCheckpoint(Seq<char>),
    NoJournal(Seq<char>),
    NoOperationJournal(Seq<char>),
    AlreadyFinished,
}

impl View for FsError {
    type V = FsErrorView;

    open spec fn view(&self) -> FsErrorView {
        match *self {
            FsError::EmptyPath => FsErrorView::EmptyPath,
            FsError::OutsidePath(path) => FsErrorView::OutsidePath(path@),
            FsError::InvalidContentId(id) => FsErrorView::InvalidContentId(id@),
            FsError::MissingRenameSource(seq) => FsErrorView::MissingRenameSource(seq as nat),
            FsError::EmptyJournal(run) => FsErrorView::EmptyJournal(run@),
            FsError::EmptyOperationJournal(run) => FsErrorView::EmptyOperationJournal(run@),
            FsError::CompactedJournal(run) => FsErrorView::CompactedJournal(run),
            FsError::ForeignRunId => FsErrorView::ForeignRunId,
            FsError::OtherBase(run, base) => FsErrorView::OtherBase(run, base@),
            FsError::MissingObject(id) => FsErrorView::MissingObject(id@),
            FsError::PayloadLength { seq, expected, found } => FsErrorView::PayloadLength {
                seq: seq as nat,
                expected: expected as nat,
                found: found as nat,
            },
            FsError::OffsetTooLarge(seq) => FsErrorView::OffsetTooLarge(seq as nat),
            FsError::RangeOverflow(seq) => FsErrorView::RangeOverflow(seq as nat),
            FsError::DestinationNotEmpty => FsErrorView::DestinationNotEmpty,
            FsError::UnknownCheckpoint(id) => FsErrorView::UnknownCheckpoint(id@),
            FsError::NoJournal(run) => FsErrorView::NoJournal(run@),
            FsError::NoOperationJournal(run) => FsErrorView::NoOperationJournal(run@),
            FsError::AlreadyFinished => FsErrorView::AlreadyFinished,
        }
    }
}

/// The text that reports an error.
pub open spec fn error_message(e: FsErrorView) -> Seq<char> {
    match e {
        FsErrorView::EmptyPath => "operation path must not be empty"@,
        FsErrorView::OutsidePath(path) =>
            "operation path must be relative and stay inside the workspace: "@ + path,
        FsErrorView::InvalidContentId(id) => "invalid content object id: "@ + id,
        FsErrorView::MissingRenameSource(seq) =>
            "renamed journal event is missing source_path at seq "@ + decimal(seq),
        FsErrorView::EmptyJournal(run) => "journal "@ + run + " has no change events to replay"@,
        FsErrorView::EmptyOperationJournal(run) =>
            "operation journal "@ + run + " has no events to replay"@,
        FsErrorView::CompactedJournal(run) =>
            "operation journal "@ + hyphenated(run.value) + " is compacted and cannot be appended"@,
        FsErrorView::ForeignRunId => "operation journal file name and event run_id do not match"@,
        FsErrorView::OtherBase(run, base) =>
            "operation journal "@ + hyphenated(run.value) + " already uses base checkpoint "@ + base,
        FsErrorView::MissingObject(id) => "missing content object: "@ + id,
        FsErrorView::PayloadLength { seq, expected, found } =>
            "write event seq "@ + decimal(seq) + " expected object length "@ + decimal(expected)
                + ", found "@ + decimal(found),
        FsErrorView::OffsetTooLarge(seq) => "write offset is too large at seq "@ + decimal(seq),
        FsErrorView::RangeOverflow(seq) => "write range overflow at seq "@ + decimal(seq),
        FsErrorView::DestinationNotEmpty => "destination is not empty; pass --force to replace it"@,
        FsErrorView::UnknownCheckpoint(id) => "unknown checkpoint: "@ + id,
        FsErrorView::NoJournal(run) =>
            "failed to read journal "@ + run + ": journal "@ + run + " does not exist"@,
        FsErrorView::NoOperationJournal(run) =>
            "failed to read operation journal "@ + run + ": operation journal "@ + run
                + " does not exist"@,
        FsErrorView::AlreadyFinished => "workspace transaction was already finished"@,
    }
}

impl FsError {
    /// The text that reports the error.
    pub fn message(&self) -> (s: String)
        ensures
            s@ == error_message(self@),
    {
        match self {
            FsError::EmptyPath => "operation path must not be empty".to_string(),
            FsError::OutsidePath(path) => concat2(
                "operation path must be relative and stay inside the workspace: ",
                path.as_str(),
            ),
            FsError::InvalidContentId(id) => concat2("invalid content object id: ", id.as_str()),
            FsError::MissingRenameSource(seq) => concat2(
                "renamed journal event is missing source_path at seq ",
                decimal_text(*seq as u128).as_str(),
            ),
            FsError::EmptyJournal(run) => concat3(
                "journal ",
                run.as_str(),
                " has no change events to replay",
            ),
            FsError::EmptyOperationJournal(run) => concat3(
                "operation journal ",
                run.as_str(),
                " has no events to replay",
            ),
            FsError::CompactedJournal(run) => concat3(
                "operation journal ",
                run.text().as_str(),
                " is compacted and cannot be appended",
            ),
            FsError::ForeignRunId =>
                "operation journal file name and event run_id do not match".to_string(),
            FsError::OtherBase(run, base) => {
                let mut s = concat3(
                    "operation journal ",
                    run.text().as_str(),
                    " already uses base checkpoint ",
                );
                s.append(base.as_str());
                s
            },
            FsError::MissingObject(id) => concat2("missing content object: ", id.as_str()),
            FsError::PayloadLength { seq, expected, found } => {
                let mut s = concat3(
                    "write event seq ",
                    decimal_text(*seq as u128).as_str(),
                    " expected object length ",
                );
                s.append(decimal_text(*expected as u128).as_str());
                s.append(", found ");
                s.append(decimal_text(*found as u128).as_str());
                s
            },
            FsError::OffsetTooLarge(seq) => concat2(
                "write offset is too large at seq ",
                decimal_text(*seq as u128).as_str(),
            ),
            FsError::RangeOverflow(seq) => concat2(
                "write range overflow at seq ",
                decimal_text(*seq as u128).as_str(),
            ),
            FsError::DestinationNotEmpty =>
                "destination is not empty; pass --force to replace it".to_string(),
            FsError::UnknownCheckpoint(id) => concat2("unknown checkpoint: ", id.as_str()),
            FsError::NoJournal(run) => {
                let mut s = concat3("failed to read journal ", run.as_str(), ": journal ");
                s.append(run.as_str());
                s.append(" does not exist");
                s
            },
            FsError::NoOperationJournal(run) => {
                let mut s = concat3(
                    "failed to read operation journal ",
                    run.as_str(),
                    ": operation journal ",
                );
                s.append(run.as_str());
                s.append(" does not exist");
                s
            },
            FsError::AlreadyFinished => "workspace transaction was already finished".to_string(),
        }
    }
}

} // verus!
