use vstd::prelude::*;
use crate::outcome::{ExecutionError, Outcome, OutcomeView};
use crate::request::{ProcessRequest, RequestView};

verus! {

/// The state of the work for one distinct request. A request that the
/// registry does not hold has not been started.
pub enum NodeView {
    /// The executor is running; these callers wait for its outcome.
    Running(Seq<u64>),
    Completed(OutcomeView),
    Failed(ExecutionError),
}

/// What a caller that attaches to a request is told.
pub enum Reply {
    /// This caller started the work and must run the executor.
    Execute,
    /// The work is in flight; the outcome will be delivered.
    Wait,
    Ready(OutcomeView),
    Failed(ExecutionError),
}

/// Something that happens to the work for one request.
pub enum NodeEvent {
    Attach(u64),
    Detach(u64),
    Finish(Result<OutcomeView, ExecutionError>),
}

pub open spec fn attach_reply(s: Option<NodeView>) -> Reply {
    match s {
        None => Reply::Execute,
        Some(NodeView::Running(_)) => Reply::Wait,
        Some(NodeView::Completed(o)) => Reply::Ready(o),
        Some(NodeView::Failed(e)) => Reply::Failed(e),
    }
}

pub open spec fn attach_next(s: Option<NodeView>, caller: u64) -> Option<NodeView> {
    match s {
        None => Some(NodeView::Running(seq![caller])),
        Some(NodeView::Running(w)) => Some(NodeView::Running(w.push(caller))),
        _ => s,
    }
}

/// The waiting callers without `caller`.
pub open spec fn without(w: Seq<u64>, caller: u64) -> Seq<u64>
    decreases w.len(),
{
    if w.len() == 0 {
        w
    } else if w.last() == caller {
        without(w.drop_last(), caller)
    } else {
        without(w.drop_last(), caller).push(w.last())
    }
}

/// A caller that detaches stops waiting; the work itself goes on, and its
/// outcome is kept for later callers.
pub open spec fn detach_next(s: Option<NodeView>, caller: u64) -> Option<NodeView> {
    match s {
        Some(NodeView::Running(w)) => Some(NodeView::Running(without(w, caller))),
        _ => s,
    }
}

/// Only running work can finish; once finished, the state never changes.
pub open spec fn finish_next(s: Option<NodeView>, res: Result<OutcomeView, ExecutionError>) -> Option<
    NodeView,
> {
    match s {
        Some(NodeView::Running(_)) => match res {
            Ok(o) => Some(NodeView::Completed(o)),
            Err(e) => Some(NodeView::Failed(e)),
        },
        _ => s,
    }
}

pub open spec fn step(s: Option<NodeView>, e: NodeEvent) -> Option<NodeView> {
    match e {
        NodeEvent::Attach(c) => attach_next(s, c),
        NodeEvent::Detach(c) => detach_next(s, c),
        NodeEvent::Finish(r) => finish_next(s, r),
    }
}

/// The state after a sequence of events.
pub open spec fn run(s: Option<NodeView>, events: Seq<NodeEvent>) -> Option<NodeView>
    decreases events.len(),
{
    if events.len() == 0 {
        s
    } else {
        step(run(s, events.drop_last()), events.last())
    }
}

/// How many attaching callers in a sequence of events are told to execute.
pub open spec fn executions(s: Option<NodeView>, events: Seq<NodeEvent>) -> nat
    decreases events.len(),
{
    if events.len() == 0 {
        0
    } else {
        executions(s, events.drop_last()) + if events.last() is Attach && attach_reply(
            run(s, events.drop_last()),
        ) is Execute {
            1nat
        } else {
            0nat
        }
    }
}

/// However callers attach, detach and the work finishes, the executor is
/// started at most once for a request, and never once the request is known.
pub proof fn lemma_executes_at_most_once(s: Option<NodeView>, events: Seq<NodeEvent>)
    ensures
        executions(s, events) <= 1,
        s is Some ==> executions(s, events) == 0,
        executions(s, events) == 1 ==> run(s, events) is Some,
        s is Some ==> run(s, events) is Some,
    decreases events.len(),
{
    if events.len() > 0 {
        lemma_executes_at_most_once(s, events.drop_last());
    }
}

/// Once the work has completed, its outcome is final: every later caller
/// that attaches is handed that same outcome.
pub proof fn lemma_completed_is_shared(o: OutcomeView, events: Seq<NodeEvent>)
    ensures
        run(Some(NodeView::Completed(o)), events) == Some(NodeView::Completed(o)),
        forall|k: int|
            0 <= k <= events.len() ==> attach_reply(
                #[trigger] run(Some(NodeView::Completed(o)), events.take(k)),
            ) == Reply::Ready(o),
{
    lemma_completed_stays(o, events);
    assert forall|k: int| 0 <= k <= events.len() implies attach_reply(
        #[trigger] run(Some(NodeView::Completed(o)), events.take(k)),
    ) == Reply::Ready(o) by {
        lemma_completed_stays(o, events.take(k));
    }
}

proof fn lemma_completed_stays(o: OutcomeView, events: Seq<NodeEvent>)
    ensures
        run(Some(NodeView::Completed(o)), events) == Some(NodeView::Completed(o)),
    decreases events.len(),
{
    if events.len() > 0 {
        lemma_completed_stays(o, events.drop_last());
    }
}

/// The executable state of one request's work.
pub enum NodeState {
    Running(Vec<u64>),
    Completed(Outcome),
    Failed(ExecutionError),
}

impl View for NodeState {
    type V = NodeView;

    open spec fn view(&self) -> NodeView {
        match self {
            NodeState::Running(w) => NodeView::Running(w@),
            NodeState::Completed(o) => NodeView::Completed(o@),
            NodeState::Failed(e) => NodeView::Failed(*e),
        }
    }
}

/// What `Registry::attach` tells its caller.
#[derive(Debug)]
pub enum Attach {
    Execute,
    Wait,
    Ready(Outcome),
    Failed(ExecutionError),
}

impl View for Attach {
    type V = Reply;

    open spec fn view(&self) -> Reply {
        match self {
            Attach::Execute => Reply::Execute,
            Attach::Wait => Reply::Wait,
            Attach::Ready(o) => Reply::Ready(o@),
            Attach::Failed(e) => Reply::Failed(*e),
        }
    }
}

pub open spec fn result_view(r: Result<Outcome, ExecutionError>) -> Result<OutcomeView, ExecutionError> {
    match r {
        Ok(o) => Ok(o@),
        Err(e) => Err(e),
    }
}

pub open spec fn entries(s: Seq<(ProcessRequest, NodeState)>) -> Seq<(RequestView, NodeView)> {
    s.map_values(|p: (ProcessRequest, NodeState)| (p.0@, p.1@))
}

pub open spec fn keys_distinct(e: Seq<(RequestView, NodeView)>) -> bool {
    forall|i: int, j: int| 0 <= i < e.len() && 0 <= j < e.len() && i != j ==> e[i].0 != e[j].0
}

pub open spec fn table(e: Seq<(RequestView, NodeView)>) -> Map<RequestView, NodeView>
    decreases e.len(),
{
    if e.len() == 0 {
        Map::empty()
    } else {
        table(e.drop_last()).insert(e.last().0, e.last().1)
    }
}

/// The state of the work for `req`; none where it has not been started.
pub open spec fn state_of(m: Map<RequestView, NodeView>, req: RequestView) -> Option<NodeView> {
    if m.contains_key(req) {
        Some(m[req])
    } else {
        None
    }
}

proof fn lemma_table_find(e: Seq<(RequestView, NodeView)>, i: int)
    requires
        keys_distinct(e),
        0 <= i < e.len(),
    ensures
        table(e).contains_key(e[i].0),
        table(e)[e[i].0] == e[i].1,
    decreases e.len(),
{
    if i < e.len() - 1 {
        lemma_table_find(e.drop_last(), i);
        assert(e.last().0 != e[i].0);
    }
}

proof fn lemma_table_absent(e: Seq<(RequestView, NodeView)>, k: RequestView)
    requires
        forall|i: int| 0 <= i < e.len() ==> e[i].0 != k,
    ensures
        !table(e).contains_key(k),
    decreases e.len(),
{
    if e.len() > 0 {
        lemma_table_absent(e.drop_last(), k);
    }
}

proof fn lemma_table_update(e: Seq<(RequestView, NodeView)>, i: int, v: NodeView)
    requires
        keys_distinct(e),
        0 <= i < e.len(),
    ensures
        table(e.update(i, (e[i].0, v))) == table(e).insert(e[i].0, v),
    decreases e.len(),
{
    let u = e.update(i, (e[i].0, v));
    if i == e.len() - 1 {
        assert(u.drop_last() =~= e.drop_last());
        assert(table(u) =~= table(e).insert(e[i].0, v));
    } else {
        assert(u.drop_last() =~= e.drop_last().update(i, (e[i].0, v)));
        lemma_table_update(e.drop_last(), i, v);
        assert(e.last().0 != e[i].0);
        assert(table(u) =~= table(e).insert(e[i].0, v));
    }
}

/// The memo of work by request: each distinct request is executed at most
/// once, and its outcome or error is shared by every caller.
pub struct Registry {
    nodes: Vec<(ProcessRequest, NodeState)>,
}

impl View for Registry {
    type V = Map<RequestView, NodeView>;

    closed spec fn view(&self) -> Map<RequestView, NodeView> {
        table(entries(self.nodes@))
    }
}

/// A copy of the waiting callers.
fn copy_ids(w: &Vec<u64>) -> (r: Vec<u64>)
    ensures
        r@ == w@,
{
    let mut r: Vec<u64> = Vec::new();
    let mut i: usize = 0;
    while i < w.len()
        invariant
            0 <= i <= w@.len(),
            r@ == w@.take(i as int),
        decreases w@.len() - i,
    {
        r.push(w[i]);
        assert(w@.take(i + 1) =~= w@.take(i as int).push(w@[i as int]));
        i = i + 1;
    }
    assert(w@.take(w@.len() as int) =~= w@);
    r
}

/// The waiting callers without `caller`.
fn remove_id(w: &Vec<u64>, caller: u64) -> (r: Vec<u64>)
    ensures
        r@ == without(w@, caller),
{
    let mut r: Vec<u64> = Vec::new();
    let mut i: usize = 0;
    while i < w.len()
        invariant
            0 <= i <= w@.len(),
            r@ == without(w@.take(i as int), caller),
        decreases w@.len() - i,
    {
        assert(w@.take(i + 1).drop_last() =~= w@.take(i as int));
        if w[i] != caller {
            r.push(w[i]);
        }
        i = i + 1;
    }
    assert(w@.take(w@.len() as int) =~= w@);
    r
}

impl Registry {
    pub closed spec fn wf(&self) -> bool {
        keys_distinct(entries(self.nodes@))
    }

    /// A registry in which no work has started.
    pub fn new() -> (r: Registry)
        ensures
            r.wf(),
            r@ == Map::<RequestView, NodeView>::empty(),
    {
        Registry { nodes: Vec::new() }
    }

    fn find(&self, req: &ProcessRequest) -> (r: Option<usize>)
        requires
            self.wf(),
        ensures
            r is Some ==> r->Some_0 < self.nodes@.len() && entries(self.nodes@)[r->Some_0 as int].0
                == req@ && self@.contains_key(req@) && self@[req@] == entries(
                self.nodes@,
            )[r->Some_0 as int].1,
            r is None ==> !self@.contains_key(req@) && forall|i: int|
                0 <= i < self.nodes@.len() ==> entries(self.nodes@)[i].0 != req@,
    {
        let ghost e = entries(self.nodes@);
        let mut i: usize = 0;
        while i < self.nodes.len()
            invariant
                0 <= i <= self.nodes@.len(),
                e == entries(self.nodes@),
                keys_distinct(e),
                forall|j: int| 0 <= j < i ==> e[j].0 != req@,
            decreases self.nodes@.len() - i,
        {
            if self.nodes[i].0.same_work(req) {
                proof {
                    lemma_table_find(e, i as int);
                }
                return Some(i);
            }
            i = i + 1;
        }
        proof {
            lemma_table_absent(e, req@);
        }
        None
    }

    /// Whether the work for `req` is in flight.
    pub fn is_running(&self, req: &ProcessRequest) -> (r: bool)
        requires
            self.wf(),
        ensures
            r == (state_of(self@, req@) matches Some(NodeView::Running(_))),
    {
        match self.find(req) {
            None => false,
            Some(i) => match &self.nodes[i].1 {
                NodeState::Running(_) => true,
                _ => false,
            },
        }
    }

    fn set_node(&mut self, i: usize, req: &ProcessRequest, node: NodeState)
        requires
            old(self).wf(),
            i < old(self).nodes@.len(),
            entries(old(self).nodes@)[i as int].0 == req@,
        ensures
            final(self).wf(),
            final(self)@ == old(self)@.insert(req@, node@),
    {
        let ghost e = entries(self.nodes@);
        proof {
            lemma_table_update(e, i as int, node@);
        }
        self.nodes.set(i, (req.duplicate(), node));
        assert(entries(self.nodes@) =~= e.update(i as int, (e[i as int].0, node@)));
    }

    /// A caller asks for the work of `req`. The first caller is told to
    /// execute it; while it runs, later callers wait for it; once it has
    /// finished, they get its outcome or its error.
    pub fn attach(&mut self, req: &ProcessRequest, caller: u64) -> (r: Attach)
        requires
            old(self).wf(),
        ensures
            final(self).wf(),
            r@ == attach_reply(state_of(old(self)@, req@)),
            final(self)@ == old(self)@.insert(
                req@,
                attach_next(state_of(old(self)@, req@), caller)->Some_0,
            ),
    {
        match self.find(req) {
            None => {
                let ghost e = entries(self.nodes@);
                let mut waiters: Vec<u64> = Vec::new();
                waiters.push(caller);
                assert(waiters@ =~= seq![caller]);
                let node = NodeState::Running(waiters);
                self.nodes.push((req.duplicate(), node));
                let ghost e2 = entries(self.nodes@);
                assert(e2.drop_last() =~= e);
                assert(e2.last() == (req@, NodeView::Running(seq![caller])));
                assert(forall|i: int| 0 <= i < e.len() ==> e[i] == e2[i]);
                assert(keys_distinct(e2));
                Attach::Execute
            },
            Some(i) => {
                let reply = match &self.nodes[i].1 {
                    NodeState::Running(w) => {
                        let mut waiters = copy_ids(w);
                        waiters.push(caller);
                        self.set_node(i, req, NodeState::Running(waiters));
                        Attach::Wait
                    },
                    NodeState::Completed(o) => {
                        assert(self@ =~= self@.insert(req@, self@[req@]));
                        Attach::Ready(o.duplicate())
                    },
                    NodeState::Failed(e) => {
                        assert(self@ =~= self@.insert(req@, self@[req@]));
                        Attach::Failed(*e)
                    },
                };
                reply
            },
        }
    }

    /// `caller` stops waiting for `req`. The work goes on for the others,
    /// and its outcome is kept even when nobody waits any more.
    pub fn detach(&mut self, req: &ProcessRequest, caller: u64)
        requires
            old(self).wf(),
        ensures
            final(self).wf(),
            state_of(old(self)@, req@) is None ==> final(self)@ == old(self)@,
            state_of(old(self)@, req@) is Some ==> final(self)@ == old(self)@.insert(
                req@,
                detach_next(state_of(old(self)@, req@), caller)->Some_0,
            ),
    {
        match self.find(req) {
            None => {},
            Some(i) => {
                let node = match &self.nodes[i].1 {
                    NodeState::Running(w) => Some(NodeState::Running(remove_id(w, caller))),
                    _ => None,
                };
                match node {
                    Some(n) => self.set_node(i, req, n),
                    None => {
                        assert(self@ =~= self@.insert(req@, self@[req@]));
                    },
                }
            },
        }
    }

    /// The executor has finished the running work of `req`: its outcome or
    /// error is recorded for good, and the callers that waited are returned,
    /// each to be handed that same result.
    pub fn finish(&mut self, req: &ProcessRequest, result: Result<Outcome, ExecutionError>) -> (waiters:
        Vec<u64>)
        requires
            old(self).wf(),
            state_of(old(self)@, req@) matches Some(NodeView::Running(_)),
        ensures
            final(self).wf(),
            state_of(old(self)@, req@) == Some(NodeView::Running(waiters@)),
            final(self)@ == old(self)@.insert(
                req@,
                finish_next(state_of(old(self)@, req@), result_view(result))->Some_0,
            ),
    {
        let i = match self.find(req) {
            Some(i) => i,
            None => {
                return Vec::new();
            },
        };
        let waiters = match &self.nodes[i].1 {
            NodeState::Running(w) => copy_ids(w),
            _ => Vec::new(),
        };
        let node = match result {
            Ok(o) => NodeState::Completed(o),
            Err(e) => NodeState::Failed(e),
        };
        self.set_node(i, req, node);
        waiters
    }
}

} // verus!
