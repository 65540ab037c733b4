use vstd::prelude::*;
use crate::error::{Cause, Failure, FailureView, Stage};
use crate::materialize::{retrieval_start, Retrieval, RetrievalView};
use crate::outcome::{ExecutionError, Outcome, OutcomeView};
use crate::registry::{
    attach_next, attach_reply, detach_next, finish_next, result_view, state_of, Attach, NodeView,
    Registry, Reply,
};
use crate::request::{lifted, ExecutionEnvironment, ProcessRequest, RawProcess, RequestView};

verus! {

/// What the caller of a submission must do next.
pub enum Next {
    /// Run the executor on this request and report back with `executed`.
    Execute(ProcessRequest),
    /// Equal work is in flight; its result will be delivered.
    Wait(ProcessRequest),
    /// Load both output streams and feed them to the retrieval.
    Retrieve(Retrieval),
    /// The submission has failed.
    Fail(Failure),
}

pub enum NextView {
    Execute(RequestView),
    Wait(RequestView),
    Retrieve(RetrievalView),
    Fail(FailureView),
}

impl View for Next {
    type V = NextView;

    open spec fn view(&self) -> NextView {
        match self {
            Next::Execute(r) => NextView::Execute(r@),
            Next::Wait(r) => NextView::Wait(r@),
            Next::Retrieve(r) => NextView::Retrieve(r@),
            Next::Fail(f) => NextView::Fail(f@),
        }
    }
}

pub open spec fn execution_failure(e: ExecutionError) -> FailureView {
    FailureView { stages: seq![Stage::Execution], cause: Cause::Execution(e) }
}

/// What a caller does once its request is known and attached.
pub open spec fn next_for(req: RequestView, reply: Reply) -> NextView {
    match reply {
        Reply::Execute => NextView::Execute(req),
        Reply::Wait => NextView::Wait(req),
        Reply::Ready(o) => NextView::Retrieve(retrieval_start(o)),
        Reply::Failed(e) => NextView::Fail(execution_failure(e)),
    }
}

/// What a caller does once the executor has reported.
pub open spec fn next_after(res: Result<OutcomeView, ExecutionError>) -> NextView {
    match res {
        Ok(o) => NextView::Retrieve(retrieval_start(o)),
        Err(e) => NextView::Fail(execution_failure(e)),
    }
}

/// The decisions of the submit operation: lifting, memoized dispatch, and
/// the start of retrieval. Running the executor and loading bytes are left
/// to the caller, which reports back.
pub struct Engine {
    registry: Registry,
}

impl View for Engine {
    type V = Map<RequestView, NodeView>;

    closed spec fn view(&self) -> Map<RequestView, NodeView> {
        self.registry@
    }
}

impl Engine {
    pub closed spec fn wf(&self) -> bool {
        self.registry.wf()
    }

    pub fn new() -> (r: Engine)
        ensures
            r.wf(),
            r@ == Map::<RequestView, NodeView>::empty(),
    {
        Engine { registry: Registry::new() }
    }

    fn next_of(req: ProcessRequest, reply: Attach) -> (r: Next)
        ensures
            r@ == next_for(req@, reply@),
    {
        match reply {
            Attach::Execute => Next::Execute(req),
            Attach::Wait => Next::Wait(req),
            Attach::Ready(o) => Next::Retrieve(Retrieval::start(o)),
            Attach::Failed(e) => Next::Fail(Failure::at(Stage::Execution, Cause::Execution(e))),
        }
    }

    /// `caller` submits a raw process under a policy.
    pub fn submit(&mut self, raw: &RawProcess, policy: &ExecutionEnvironment, caller: u64) -> (r: Next)
        requires
            old(self).wf(),
        ensures
            final(self).wf(),
            match lifted(raw@, policy@) {
                Err(e) => r@ == NextView::Fail(
                    FailureView { stages: seq![Stage::Lifting], cause: Cause::Lift(e) },
                ) && final(self)@ == old(self)@,
                Ok(v) => r@ == next_for(v, attach_reply(state_of(old(self)@, v))) && final(self)@
                    == old(self)@.insert(v, attach_next(state_of(old(self)@, v), caller)->Some_0),
            },
    {
        match ProcessRequest::lift(raw, policy) {
            Err(e) => Next::Fail(Failure::at(Stage::Lifting, Cause::Lift(e))),
            Ok(req) => {
                let reply = self.registry.attach(&req, caller);
                Engine::next_of(req, reply)
            },
        }
    }

    /// The executor has reported on `req`, which this engine had it run.
    /// Returns the callers that waited, and what each of them, and the
    /// caller that ran the executor, does next.
    pub fn executed(&mut self, req: &ProcessRequest, result: Result<Outcome, ExecutionError>) -> (r: (
        Vec<u64>,
        Next,
    ))
        requires
            old(self).wf(),
            state_of(old(self)@, req@) matches Some(NodeView::Running(_)),
        ensures
            final(self).wf(),
            state_of(old(self)@, req@) == Some(NodeView::Running(r.0@)),
            r.1@ == next_after(result_view(result)),
            final(self)@ == old(self)@.insert(
                req@,
                finish_next(state_of(old(self)@, req@), result_view(result))->Some_0,
            ),
    {
        let next = match &result {
            Ok(o) => Next::Retrieve(Retrieval::start(o.duplicate())),
            Err(e) => Next::Fail(Failure::at(Stage::Execution, Cause::Execution(*e))),
        };
        let waiters = self.registry.finish(req, result);
        (waiters, next)
    }

    /// Whether `req` is running, so that its executor may report.
    pub fn is_running(&self, req: &ProcessRequest) -> (r: bool)
        requires
            self.wf(),
        ensures
            r == (state_of(self@, req@) matches Some(NodeView::Running(_))),
    {
        self.registry.is_running(req)
    }

    /// `caller` gives up on `req`. Only that caller is affected: the work
    /// goes on for the others and its outcome is kept.
    pub fn cancel(&mut self, req: &ProcessRequest, caller: u64) -> (r: Failure)
        requires
            old(self).wf(),
        ensures
            final(self).wf(),
            r@ == (FailureView { stages: Seq::empty(), cause: Cause::Cancelled }),
            state_of(old(self)@, req@) is None ==> final(self)@ == old(self)@,
            state_of(old(self)@, req@) is Some ==> final(self)@ == old(self)@.insert(
                req@,
                detach_next(state_of(old(self)@, req@), caller)->Some_0,
            ),
    {
        self.registry.detach(req, caller);
        Failure::new(Cause::Cancelled)
    }
}

} // verus!
