use process_exec::digest::Digest;
use process_exec::engine::{Engine, Next};
use process_exec::error::{Cause, Stage};
use process_exec::materialize::{Progress, Retrieval, Stream};
use process_exec::outcome::{ExecutionError, Metadata, Outcome, ResultSource};
use process_exec::registry::{Attach, Registry};
use process_exec::request::{ExecutionEnvironment, LiftError, ProcessRequest, RawProcess};
use process_exec::store::MemoryStore;

fn local() -> ExecutionEnvironment {
    ExecutionEnvironment {
        platform: "local".to_string(),
        remote_execution: false,
        cache_read: true,
        cache_write: true,
    }
}

fn echo_hi() -> RawProcess {
    RawProcess {
        argv: vec!["echo".to_string(), "hi".to_string()],
        env: Vec::new(),
        input_digest: Some(Digest::empty()),
        output_files: Vec::new(),
        timeout_ms: None,
    }
}

/// A stand-in executor that counts its invocations and writes what the
/// process would print into the store.
struct CountingExecutor {
    invocations: u32,
    exceed_timeout: bool,
}

impl CountingExecutor {
    fn execute(&mut self, store: &mut MemoryStore, req: &ProcessRequest) -> Result<Outcome, ExecutionError> {
        self.invocations += 1;
        if self.exceed_timeout && req.timeout_ms.is_some() {
            return Err(ExecutionError::Timeout);
        }
        let mut printed = req.argv[1..].join(" ").into_bytes();
        printed.push(b'\n');
        let stdout_digest = store.put(&printed);
        let stderr_digest = store.put(b"");
        Ok(Outcome {
            exit_code: 0,
            stdout_digest,
            stderr_digest,
            output_directory: Digest::empty(),
            metadata: Metadata {
                total_elapsed_ms: Some(3),
                environment: req.environment.clone(),
                source: ResultSource::LocallyExecuted,
                source_run_id: 1,
            },
        })
    }
}

fn retrieve(store: &MemoryStore, r: Retrieval) -> Progress {
    let out = store.load(r.digest_for(Stream::Stdout));
    let err = store.load(r.digest_for(Stream::Stderr));
    match r.on_load(Stream::Stdout, out) {
        Progress::Pending(p) => p.on_load(Stream::Stderr, err),
        done => done,
    }
}

#[test]
fn echo_runs_locally() {
    let mut store = MemoryStore::new();
    let mut exec = CountingExecutor { invocations: 0, exceed_timeout: false };
    let mut engine = Engine::new();
    let req = match engine.submit(&echo_hi(), &local(), 1) {
        Next::Execute(req) => req,
        _ => panic!("the first caller runs the executor"),
    };
    let outcome = exec.execute(&mut store, &req);
    let (waiters, next) = engine.executed(&req, outcome);
    assert_eq!(waiters, vec![1]);
    let retrieval = match next {
        Next::Retrieve(r) => r,
        _ => panic!("expected retrieval"),
    };
    match retrieve(&store, retrieval) {
        Progress::Done(Ok(result)) => {
            assert_eq!(result.exit_code, 0);
            assert_eq!(result.stdout, b"hi\n".to_vec());
            assert_eq!(result.stderr, Vec::<u8>::new());
            assert_eq!(result.metadata.source.tag(), "locally-executed");
        },
        _ => panic!("expected a process result"),
    }
    assert_eq!(exec.invocations, 1);
}

#[test]
fn concurrent_identical_submissions_execute_once() {
    let mut store = MemoryStore::new();
    let mut exec = CountingExecutor { invocations: 0, exceed_timeout: false };
    let mut engine = Engine::new();
    let first = engine.submit(&echo_hi(), &local(), 1);
    let second = engine.submit(&echo_hi(), &local(), 2);
    let req = match first {
        Next::Execute(req) => req,
        _ => panic!("the first caller runs the executor"),
    };
    assert!(matches!(second, Next::Wait(_)));
    assert!(engine.is_running(&req));
    let outcome = exec.execute(&mut store, &req);
    let (waiters, next) = engine.executed(&req, outcome);
    assert_eq!(waiters, vec![1, 2]);
    assert!(matches!(next, Next::Retrieve(_)));
    assert!(!engine.is_running(&req));
    match engine.submit(&echo_hi(), &local(), 3) {
        Next::Retrieve(r) => assert_eq!(r.outcome.stdout_digest, Digest::of_bytes(b"hi\n")),
        _ => panic!("a later caller reuses the outcome"),
    }
    assert_eq!(exec.invocations, 1);
}

#[test]
fn timeout_yields_execution_error() {
    let mut store = MemoryStore::new();
    let mut exec = CountingExecutor { invocations: 0, exceed_timeout: true };
    let mut engine = Engine::new();
    let mut raw = echo_hi();
    raw.timeout_ms = Some(50);
    let req = match engine.submit(&raw, &local(), 1) {
        Next::Execute(req) => req,
        _ => panic!("the first caller runs the executor"),
    };
    assert_eq!(req.timeout_ms, Some(50));
    let outcome = exec.execute(&mut store, &req);
    let (_, next) = engine.executed(&req, outcome);
    match next {
        Next::Fail(f) => {
            assert_eq!(f.cause, Cause::Execution(ExecutionError::Timeout));
            assert_eq!(f.stages, vec![Stage::Execution]);
        },
        _ => panic!("a timeout is no process result"),
    }
    match engine.submit(&raw, &local(), 2) {
        Next::Fail(f) => assert_eq!(f.cause, Cause::Execution(ExecutionError::Timeout)),
        _ => panic!("the failure is shared"),
    }
}

#[test]
fn lift_failure_is_enriched() {
    let mut engine = Engine::new();
    let mut raw = echo_hi();
    raw.input_digest = None;
    match engine.submit(&raw, &local(), 1) {
        Next::Fail(f) => {
            assert_eq!(f.stages, vec![Stage::Lifting]);
            assert_eq!(f.stages[0].label(), "Error lifting Process");
            assert_eq!(f.cause, Cause::Lift(LiftError::MissingInputDigest));
        },
        _ => panic!("expected a lift failure"),
    }
}

#[test]
fn cancel_affects_only_that_caller() {
    let mut registry = Registry::new();
    let req = ProcessRequest::lift(&echo_hi(), &local()).unwrap();
    assert!(matches!(registry.attach(&req, 1), Attach::Execute));
    assert!(matches!(registry.attach(&req, 2), Attach::Wait));
    assert!(matches!(registry.attach(&req, 3), Attach::Wait));
    registry.detach(&req, 2);
    assert!(registry.is_running(&req));
    let waiters = registry.finish(&req, Err(ExecutionError::BackendUnavailable));
    assert_eq!(waiters, vec![1, 3]);
    assert!(matches!(registry.attach(&req, 4), Attach::Failed(ExecutionError::BackendUnavailable)));
}

#[test]
fn engine_cancel_keeps_work_running() {
    let mut engine = Engine::new();
    let req = match engine.submit(&echo_hi(), &local(), 1) {
        Next::Execute(req) => req,
        _ => panic!("the first caller runs the executor"),
    };
    let f = engine.cancel(&req, 1);
    assert_eq!(f.cause, Cause::Cancelled);
    assert!(f.stages.is_empty());
    assert!(engine.is_running(&req));
    assert!(matches!(engine.submit(&echo_hi(), &local(), 2), Next::Wait(_)));
}

#[test]
fn distinct_requests_each_execute() {
    let mut registry = Registry::new();
    let a = ProcessRequest::lift(&echo_hi(), &local()).unwrap();
    let mut raw = echo_hi();
    raw.argv.push("there".to_string());
    let b = ProcessRequest::lift(&raw, &local()).unwrap();
    assert!(matches!(registry.attach(&a, 1), Attach::Execute));
    assert!(matches!(registry.attach(&b, 1), Attach::Execute));
    assert!(matches!(registry.attach(&a, 2), Attach::Wait));
}
