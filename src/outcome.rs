use vstd::prelude::*;
use crate::digest::{Digest, DigestView};
use crate::request::{ExecutionEnvironment, PolicyView};

verus! {

/// Where a process outcome came from.
#[derive(PartialEq, Eq, Structural, Clone, Copy, Debug)]
pub enum ResultSource {
    LocallyExecuted,
    RemotelyExecuted,
    CacheHit,
}

impl ResultSource {
    /// The tag that callers see for this source.
    pub fn tag(&self) -> (r: &'static str)
        ensures
            *self == ResultSource::LocallyExecuted ==> r@ == "locally-executed"@,
            *self == ResultSource::RemotelyExecuted ==> r@ == "remote-executed"@,
            *self == ResultSource::CacheHit ==> r@ == "cache-hit"@,
    {
        proof {
            reveal_strlit("locally-executed");
            reveal_strlit("remote-executed");
            reveal_strlit("cache-hit");
        }
        match self {
            ResultSource::LocallyExecuted => "locally-executed",
            ResultSource::RemotelyExecuted => "remote-executed",
            ResultSource::CacheHit => "cache-hit",
        }
    }
}

/// Why the executor could not produce an outcome.
#[derive(PartialEq, Eq, Structural, Clone, Copy, Debug)]
pub enum ExecutionError {
    LaunchFailed,
    Timeout,
    BackendUnavailable,
    OutputMismatch,
}

/// Provenance of an outcome.
#[derive(Clone, Debug)]
pub struct Metadata {
    pub total_elapsed_ms: Option<u64>,
    pub environment: ExecutionEnvironment,
    pub source: ResultSource,
    pub source_run_id: u32,
}

pub struct MetadataView {
    pub total_elapsed_ms: Option<u64>,
    pub environment: PolicyView,
    pub source: ResultSource,
    pub source_run_id: u32,
}

impl View for Metadata {
    type V = MetadataView;

    open spec fn view(&self) -> MetadataView {
        MetadataView {
            total_elapsed_ms: self.total_elapsed_ms,
            environment: self.environment@,
            source: self.source,
            source_run_id: self.source_run_id,
        }
    }
}

impl Metadata {
    pub fn duplicate(&self) -> (r: Metadata)
        ensures
            r@ == self@,
    {
        Metadata {
            total_elapsed_ms: self.total_elapsed_ms,
            environment: self.environment.duplicate(),
            source: self.source,
            source_run_id: self.source_run_id,
        }
    }
}

/// What the executor hands back: the exit code, and digests of the output
/// streams and of the output tree.
#[derive(Clone, Debug)]
pub struct Outcome {
    pub exit_code: i32,
    pub stdout_digest: Digest,
    pub stderr_digest: Digest,
    pub output_directory: Digest,
    pub metadata: Metadata,
}

pub struct OutcomeView {
    pub exit_code: i32,
    pub stdout_digest: DigestView,
    pub stderr_digest: DigestView,
    pub output_directory: DigestView,
    pub metadata: MetadataView,
}

impl View for Outcome {
    type V = OutcomeView;

    open spec fn view(&self) -> OutcomeView {
        OutcomeView {
            exit_code: self.exit_code,
            stdout_digest: self.stdout_digest@,
            stderr_digest: self.stderr_digest@,
            output_directory: self.output_directory@,
            metadata: self.metadata@,
        }
    }
}

impl Outcome {
    pub fn duplicate(&self) -> (r: Outcome)
        ensures
            r@ == self@,
    {
        Outcome {
            exit_code: self.exit_code,
            stdout_digest: self.stdout_digest.duplicate(),
            stderr_digest: self.stderr_digest.duplicate(),
            output_directory: self.output_directory.duplicate(),
            metadata: self.metadata.duplicate(),
        }
    }
}

} // verus!
