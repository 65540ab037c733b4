use vstd::prelude::*;
use crate::outcome::ExecutionError;
use crate::request::LiftError;

verus! {

/// A stage of the pipeline that an error crossed on its way to the caller.
#[derive(PartialEq, Eq, Structural, Clone, Copy, Debug)]
pub enum Stage {
    Lifting,
    Execution,
    StdoutBytes,
    StderrBytes,
}

impl Stage {
    /// The context that this stage adds to an error.
    pub fn label(&self) -> (r: &'static str)
        ensures
            *self == Stage::Lifting ==> r@ == "Error lifting Process"@,
            *self == Stage::Execution ==> r@ == "Error executing Process"@,
            *self == Stage::StdoutBytes ==> r@ == "Bytes from stdout"@,
            *self == Stage::StderrBytes ==> r@ == "Bytes from stderr"@,
    {
        proof {
            reveal_strlit("Error lifting Process");
            reveal_strlit("Error executing Process");
            reveal_strlit("Bytes from stdout");
            reveal_strlit("Bytes from stderr");
        }
        match self {
            Stage::Lifting => "Error lifting Process",
            Stage::Execution => "Error executing Process",
            Stage::StdoutBytes => "Bytes from stdout",
            Stage::StderrBytes => "Bytes from stderr",
        }
    }
}

/// Why bytes could not be had from the content store.
#[derive(PartialEq, Eq, Structural, Clone, Copy, Debug)]
pub enum StoreError {
    /// No content is stored under the digest.
    NotFound,
    /// The store could not be read.
    Io,
    /// The bytes read do not have the digest they were asked for by.
    HashMismatch,
}

/// The root cause of a failed submission.
#[derive(PartialEq, Eq, Structural, Clone, Copy, Debug)]
pub enum Cause {
    Lift(LiftError),
    Execution(ExecutionError),
    Retrieval(StoreError),
    /// The caller detached before the work completed.
    Cancelled,
}

/// A root cause with the stages it crossed, outermost first.
#[derive(Clone, Debug)]
pub struct Failure {
    pub stages: Vec<Stage>,
    pub cause: Cause,
}

pub struct FailureView {
    pub stages: Seq<Stage>,
    pub cause: Cause,
}

impl View for Failure {
    type V = FailureView;

    open spec fn view(&self) -> FailureView {
        FailureView { stages: self.stages@, cause: self.cause }
    }
}

impl Failure {
    /// A failure that has crossed no stage yet.
    pub fn new(cause: Cause) -> (r: Failure)
        ensures
            r@ == (FailureView { stages: Seq::empty(), cause }),
    {
        Failure { stages: Vec::new(), cause }
    }

    /// A failure that arose in `stage`.
    pub fn at(stage: Stage, cause: Cause) -> (r: Failure)
        ensures
            r@ == (FailureView { stages: seq![stage], cause }),
    {
        Failure::new(cause).enrich(stage)
    }

    /// The same failure, seen from the outside of `stage`.
    pub fn enrich(self, stage: Stage) -> (r: Failure)
        ensures
            r@ == (FailureView { stages: seq![stage] + self@.stages, cause: self@.cause }),
    {
        let mut stages: Vec<Stage> = Vec::new();
        stages.push(stage);
        let mut i: usize = 0;
        while i < self.stages.len()
            invariant
                0 <= i <= self.stages@.len(),
                stages@ == seq![stage] + self.stages@.take(i as int),
            decreases self.stages@.len() - i,
        {
            stages.push(self.stages[i]);
            assert(self.stages@.take(i + 1) =~= self.stages@.take(i as int).push(self.stages@[i as int]));
            i = i + 1;
        }
        assert(self.stages@.take(self.stages@.len() as int) =~= self.stages@);
        Failure { stages, cause: self.cause }
    }
}

} // verus!
