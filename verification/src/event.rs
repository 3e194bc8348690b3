//! What the worker of a device reports while it scans.

use vstd::prelude::*;

verus! {

/// The stage that a scan is in.
#[derive(Debug, Clone, Copy, PartialEq, Eq, Structural)]
pub enum Stage {
    Writing,
    Reading,
    Done,
}

/// What went wrong with a chunk.
#[derive(Debug, Clone, Copy, PartialEq, Eq, Structural)]
pub enum ErrorKind {
    /// The chunk could not be written.
    Write,
    /// The chunk could not be read back.
    Read,
    /// The chunk was read back with other bytes than were written.
    Value,
}

/// A chunk that failed.
#[derive(Debug)]
pub struct ErrorRecord {
    pub chunk_idx: u64,
    pub offset: u64,
    pub kind: ErrorKind,
    pub message: String,
}

/// The mathematical value of an [`ErrorRecord`].
#[verifier::ext_equal]
pub struct ErrorView {
    pub chunk_idx: u64,
    pub offset: u64,
    pub kind: ErrorKind,
    pub message: Seq<char>,
}

impl View for ErrorRecord {
    type V = ErrorView;

    open spec fn view(&self) -> ErrorView {
        ErrorView {
            chunk_idx: self.chunk_idx,
            offset: self.offset,
            kind: self.kind,
            message: self.message@,
        }
    }
}

impl Clone for ErrorRecord {
    fn clone(&self) -> (copy: Self)
        ensures
            copy == *self,
    {
        ErrorRecord {
            chunk_idx: self.chunk_idx,
            offset: self.offset,
            kind: self.kind,
            message: self.message.clone(),
        }
    }
}

/// The mathematical value of a chunk's error, if it has one.
pub open spec fn error_view(error: Option<ErrorRecord>) -> Option<ErrorView> {
    match error {
        Some(record) => Some(record@),
        None => None,
    }
}

/// The first report of a worker.
#[derive(Debug)]
pub struct InitEvent {
    pub device: String,
    pub total_bytes: u64,
    pub total_chunks: u64,
}

/// The report of a worker on one chunk in one stage.
#[derive(Debug)]
pub struct ProgressEvent {
    pub device: String,
    pub stage: Stage,
    pub chunk_idx: u64,
    pub bytes: u64,
    pub error: Option<ErrorRecord>,
}

/// The mathematical value of a [`ProgressEvent`].
#[verifier::ext_equal]
pub struct ProgressView {
    pub device: Seq<char>,
    pub stage: Stage,
    pub chunk_idx: u64,
    pub bytes: u64,
    pub error: Option<ErrorView>,
}

impl View for ProgressEvent {
    type V = ProgressView;

    open spec fn view(&self) -> ProgressView {
        ProgressView {
            device: self.device@,
            stage: self.stage,
            chunk_idx: self.chunk_idx,
            bytes: self.bytes,
            error: error_view(self.error),
        }
    }
}

/// The last report of a worker that came to its end.
#[derive(Debug)]
pub struct FinishEvent {
    pub device: String,
}

/// Any report of a worker.
#[derive(Debug)]
pub enum WorkerEvent {
    Init(InitEvent),
    Progress(ProgressEvent),
    Finish(FinishEvent),
    /// The worker gave up.
    Fatal { device: String, message: String },
}

} // verus!
