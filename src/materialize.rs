use vstd::prelude::*;
use crate::digest::{digest_of, Digest, DigestView};
use crate::error::{Cause, Failure, FailureView, Stage, StoreError};
use crate::outcome::{Metadata, MetadataView, Outcome, OutcomeView};

verus! {

/// One of the two output streams of a process.
#[derive(PartialEq, Eq, Structural, Clone, Copy, Debug)]
pub enum Stream {
    Stdout,
    Stderr,
}

/// The materialized result of a process: its output bytes beside their
/// digests, and all else the outcome carried.
#[derive(Clone, Debug)]
pub struct ProcessResult {
    pub stdout: Vec<u8>,
    pub stdout_digest: Digest,
    pub stderr: Vec<u8>,
    pub stderr_digest: Digest,
    pub exit_code: i32,
    pub output_directory: Digest,
    pub metadata: Metadata,
}

pub struct ResultView {
    pub stdout: Seq<u8>,
    pub stdout_digest: DigestView,
    pub stderr: Seq<u8>,
    pub stderr_digest: DigestView,
    pub exit_code: i32,
    pub output_directory: DigestView,
    pub metadata: MetadataView,
}

impl View for ProcessResult {
    type V = ResultView;

    open spec fn view(&self) -> ResultView {
        ResultView {
            stdout: self.stdout@,
            stdout_digest: self.stdout_digest@,
            stderr: self.stderr@,
            stderr_digest: self.stderr_digest@,
            exit_code: self.exit_code,
            output_directory: self.output_directory@,
            metadata: self.metadata@,
        }
    }
}

pub open spec fn load_view(r: Result<Vec<u8>, StoreError>) -> Result<Seq<u8>, StoreError> {
    match r {
        Ok(b) => Ok(b@),
        Err(e) => Err(e),
    }
}

pub open spec fn materialized_view(r: Result<ProcessResult, Failure>) -> Result<ResultView, FailureView> {
    match r {
        Ok(p) => Ok(p@),
        Err(f) => Err(f@),
    }
}

/// A load from the store, held to the digest it was asked for by: bytes of
/// another digest are a mismatch.
pub open spec fn checked(d: DigestView, load: Result<Seq<u8>, StoreError>) -> Result<Seq<u8>, StoreError> {
    match load {
        Ok(b) => if digest_of(b) == d {
            Ok(b)
        } else {
            Err(StoreError::HashMismatch)
        },
        Err(e) => Err(e),
    }
}

pub open spec fn stage_of(s: Stream) -> Stage {
    match s {
        Stream::Stdout => Stage::StdoutBytes,
        Stream::Stderr => Stage::StderrBytes,
    }
}

pub open spec fn digest_for(o: OutcomeView, s: Stream) -> DigestView {
    match s {
        Stream::Stdout => o.stdout_digest,
        Stream::Stderr => o.stderr_digest,
    }
}

pub open spec fn retrieval_failure(s: Stream, e: StoreError) -> FailureView {
    FailureView { stages: seq![stage_of(s)], cause: Cause::Retrieval(e) }
}

/// The result assembled from an outcome and the two streams' bytes.
pub open spec fn assembled(o: OutcomeView, out: Seq<u8>, err: Seq<u8>) -> ResultView {
    ResultView {
        stdout: out,
        stdout_digest: o.stdout_digest,
        stderr: err,
        stderr_digest: o.stderr_digest,
        exit_code: o.exit_code,
        output_directory: o.output_directory,
        metadata: o.metadata,
    }
}

/// Materialization from the two loads, all or nothing: both streams must
/// load and match their digests; a stdout failure is reported first.
pub open spec fn materialized(
    o: OutcomeView,
    out: Result<Seq<u8>, StoreError>,
    err: Result<Seq<u8>, StoreError>,
) -> Result<ResultView, FailureView> {
    match checked(o.stdout_digest, out) {
        Err(e) => Err(retrieval_failure(Stream::Stdout, e)),
        Ok(b1) => match checked(o.stderr_digest, err) {
            Err(e) => Err(retrieval_failure(Stream::Stderr, e)),
            Ok(b2) => Ok(assembled(o, b1, b2)),
        },
    }
}

/// Holds a load to the digest it was asked for by.
pub fn check_load(d: &Digest, load: Result<Vec<u8>, StoreError>) -> (r: Result<Vec<u8>, StoreError>)
    ensures
        load_view(r) == checked(d@, load_view(load)),
{
    match load {
        Ok(b) => if d.matches_bytes(b.as_slice()) {
            Ok(b)
        } else {
            Err(StoreError::HashMismatch)
        },
        Err(e) => Err(e),
    }
}

fn assemble(o: &Outcome, out: Vec<u8>, err: Vec<u8>) -> (r: ProcessResult)
    ensures
        r@ == assembled(o@, out@, err@),
{
    ProcessResult {
        stdout: out,
        stdout_digest: o.stdout_digest.duplicate(),
        stderr: err,
        stderr_digest: o.stderr_digest.duplicate(),
        exit_code: o.exit_code,
        output_directory: o.output_directory.duplicate(),
        metadata: o.metadata.duplicate(),
    }
}

/// Turns an outcome and the loads of its two streams into a process result.
pub fn materialize(
    o: &Outcome,
    stdout: Result<Vec<u8>, StoreError>,
    stderr: Result<Vec<u8>, StoreError>,
) -> (r: Result<ProcessResult, Failure>)
    ensures
        materialized_view(r) == materialized(o@, load_view(stdout), load_view(stderr)),
{
    let out = match check_load(&o.stdout_digest, stdout) {
        Err(e) => {
            return Err(Failure::at(Stage::StdoutBytes, Cause::Retrieval(e)));
        },
        Ok(b) => b,
    };
    let err = match check_load(&o.stderr_digest, stderr) {
        Err(e) => {
            return Err(Failure::at(Stage::StderrBytes, Cause::Retrieval(e)));
        },
        Ok(b) => b,
    };
    Ok(assemble(o, out, err))
}

/// The two loads of a materialization, racing: what has arrived so far.
pub struct RetrievalView {
    pub outcome: OutcomeView,
    pub stdout: Option<Seq<u8>>,
    pub stderr: Option<Seq<u8>>,
}

pub enum ProgressView {
    Pending(RetrievalView),
    Done(Result<ResultView, FailureView>),
}

pub open spec fn retrieval_start(o: OutcomeView) -> RetrievalView {
    RetrievalView { outcome: o, stdout: None, stderr: None }
}

pub open spec fn slot(st: RetrievalView, s: Stream) -> Option<Seq<u8>> {
    match s {
        Stream::Stdout => st.stdout,
        Stream::Stderr => st.stderr,
    }
}

/// One load arrives. The first failure ends the materialization at once,
/// whatever the other load would give; once both have arrived the result
/// is assembled.
pub open spec fn retrieval_step(st: RetrievalView, s: Stream, load: Result<Seq<u8>, StoreError>) -> ProgressView {
    match checked(digest_for(st.outcome, s), load) {
        Err(e) => ProgressView::Done(Err(retrieval_failure(s, e))),
        Ok(b) => match s {
            Stream::Stdout => match st.stderr {
                Some(b2) => ProgressView::Done(Ok(assembled(st.outcome, b, b2))),
                None => ProgressView::Pending(RetrievalView { stdout: Some(b), ..st }),
            },
            Stream::Stderr => match st.stdout {
                Some(b1) => ProgressView::Done(Ok(assembled(st.outcome, b1, b))),
                None => ProgressView::Pending(RetrievalView { stderr: Some(b), ..st }),
            },
        },
    }
}

/// A materialization whose two loads are in flight together.
pub struct Retrieval {
    pub outcome: Outcome,
    pub stdout: Option<Vec<u8>>,
    pub stderr: Option<Vec<u8>>,
}

pub open spec fn opt_bytes(b: Option<Vec<u8>>) -> Option<Seq<u8>> {
    match b {
        Some(v) => Some(v@),
        None => None,
    }
}

impl View for Retrieval {
    type V = RetrievalView;

    open spec fn view(&self) -> RetrievalView {
        RetrievalView {
            outcome: self.outcome@,
            stdout: opt_bytes(self.stdout),
            stderr: opt_bytes(self.stderr),
        }
    }
}

/// Where a materialization stands after a load arrives.
pub enum Progress {
    Pending(Retrieval),
    Done(Result<ProcessResult, Failure>),
}

impl View for Progress {
    type V = ProgressView;

    open spec fn view(&self) -> ProgressView {
        match self {
            Progress::Pending(r) => ProgressView::Pending(r@),
            Progress::Done(r) => ProgressView::Done(materialized_view(*r)),
        }
    }
}

impl Retrieval {
    /// Both loads are issued; none has arrived.
    pub fn start(outcome: Outcome) -> (r: Retrieval)
        ensures
            r@ == retrieval_start(outcome@),
    {
        Retrieval { outcome, stdout: None, stderr: None }
    }

    /// The digest that the load of `stream` is for.
    pub fn digest_for(&self, stream: Stream) -> (r: &Digest)
        ensures
            r@ == digest_for(self@.outcome, stream),
    {
        match stream {
            Stream::Stdout => &self.outcome.stdout_digest,
            Stream::Stderr => &self.outcome.stderr_digest,
        }
    }

    /// The load of `stream` has arrived.
    pub fn on_load(self, stream: Stream, load: Result<Vec<u8>, StoreError>) -> (r: Progress)
        requires
            slot(self@, stream) is None,
        ensures
            r@ == retrieval_step(self@, stream, load_view(load)),
    {
        let checked = match stream {
            Stream::Stdout => check_load(&self.outcome.stdout_digest, load),
            Stream::Stderr => check_load(&self.outcome.stderr_digest, load),
        };
        let bytes = match checked {
            Err(e) => {
                let stage = match stream {
                    Stream::Stdout => Stage::StdoutBytes,
                    Stream::Stderr => Stage::StderrBytes,
                };
                return Progress::Done(Err(Failure::at(stage, Cause::Retrieval(e))));
            },
            Ok(b) => b,
        };
        let Retrieval { outcome, stdout, stderr } = self;
        match stream {
            Stream::Stdout => match stderr {
                Some(b2) => Progress::Done(Ok(assemble(&outcome, bytes, b2))),
                None => Progress::Pending(Retrieval { outcome, stdout: Some(bytes), stderr: None }),
            },
            Stream::Stderr => match stdout {
                Some(b1) => Progress::Done(Ok(assemble(&outcome, b1, bytes))),
                None => Progress::Pending(Retrieval { outcome, stdout: None, stderr: Some(bytes) }),
            },
        }
    }
}

/// Fail-fast: when stdout loads and matches but stderr fails, the
/// materialization fails naming stderr and yields no result, whether the
/// two loads are taken together or arrive in either order.
pub proof fn lemma_stderr_failure_is_fatal(o: OutcomeView, out: Seq<u8>, e: StoreError)
    requires
        o.stdout_digest == digest_of(out),
    ensures
        materialized(o, Ok(out), Err(e)) == Err::<ResultView, FailureView>(
            retrieval_failure(Stream::Stderr, e),
        ),
        retrieval_step(retrieval_start(o), Stream::Stderr, Err(e)) == ProgressView::Done(
            Err(retrieval_failure(Stream::Stderr, e)),
        ),
        retrieval_step(retrieval_start(o), Stream::Stdout, Ok(out)) is Pending,
        retrieval_step(
            retrieval_step(retrieval_start(o), Stream::Stdout, Ok(out))->Pending_0,
            Stream::Stderr,
            Err(e),
        ) == ProgressView::Done(Err(retrieval_failure(Stream::Stderr, e))),
{
}

/// Round trip: when the loads give bytes whose digests are the outcome's,
/// the result holds exactly those bytes, in whichever order they arrive.
pub proof fn lemma_round_trip(o: OutcomeView, out: Seq<u8>, err: Seq<u8>)
    requires
        o.stdout_digest == digest_of(out),
        o.stderr_digest == digest_of(err),
    ensures
        materialized(o, Ok(out), Ok(err)) == Ok::<ResultView, FailureView>(assembled(o, out, err)),
        assembled(o, out, err).stdout == out,
        assembled(o, out, err).stderr == err,
        retrieval_step(
            retrieval_step(retrieval_start(o), Stream::Stdout, Ok(out))->Pending_0,
            Stream::Stderr,
            Ok(err),
        ) == ProgressView::Done(Ok(assembled(o, out, err))),
        retrieval_step(
            retrieval_step(retrieval_start(o), Stream::Stderr, Ok(err))->Pending_0,
            Stream::Stdout,
            Ok(out),
        ) == ProgressView::Done(Ok(assembled(o, out, err))),
{
}

} // verus!
