use process_exec::digest::Digest;
use process_exec::error::{Cause, Failure, Stage, StoreError};
use process_exec::materialize::{check_load, materialize, Progress, Retrieval, Stream};
use process_exec::outcome::{Metadata, Outcome, ResultSource};
use process_exec::request::ExecutionEnvironment;
use process_exec::store::MemoryStore;

const EMPTY_SHA256: [u8; 32] = [
    227, 176, 196, 66, 152, 252, 28, 20, 154, 251, 244, 200, 153, 111, 185, 36, 39, 174, 65, 228,
    100, 155, 147, 76, 164, 149, 153, 27, 120, 82, 184, 85,
];

const HI_SHA256: [u8; 32] = [
    152, 234, 110, 79, 33, 111, 47, 180, 182, 159, 255, 155, 58, 68, 132, 44, 56, 104, 108, 166,
    133, 243, 245, 93, 196, 140, 93, 63, 177, 16, 123, 228,
];

fn outcome(stdout: &Digest, stderr: &Digest) -> Outcome {
    Outcome {
        exit_code: 0,
        stdout_digest: stdout.clone(),
        stderr_digest: stderr.clone(),
        output_directory: Digest::empty(),
        metadata: Metadata {
            total_elapsed_ms: Some(12),
            environment: ExecutionEnvironment {
                platform: "local".to_string(),
                remote_execution: false,
                cache_read: true,
                cache_write: true,
            },
            source: ResultSource::LocallyExecuted,
            source_run_id: 7,
        },
    }
}

#[test]
fn digest_of_known_bytes() {
    let empty = Digest::of_bytes(b"");
    assert_eq!(empty.fingerprint, EMPTY_SHA256.to_vec());
    assert_eq!(empty.size_bytes, 0);
    assert_eq!(Digest::empty(), empty);
    let hi = Digest::of_bytes(b"hi\n");
    assert_eq!(hi.fingerprint, HI_SHA256.to_vec());
    assert_eq!(hi.size_bytes, 3);
    assert!(hi.matches_bytes(b"hi\n"));
    assert!(!hi.matches_bytes(b"hi!"));
    assert!(!hi.matches_bytes(b"hi"));
    assert_ne!(hi, empty);
}

#[test]
fn store_put_then_load_returns_bytes() {
    let mut store = MemoryStore::new();
    let d = store.put(b"hi\n");
    assert_eq!(d.fingerprint, HI_SHA256.to_vec());
    let again = store.put(b"hi\n");
    assert_eq!(again, d);
    let bytes = store.load(&d).unwrap();
    assert_eq!(bytes, b"hi\n".to_vec());
    assert!(d.matches_bytes(&bytes));
}

#[test]
fn store_load_missing_is_not_found() {
    let mut store = MemoryStore::new();
    store.put(b"something");
    assert_eq!(store.load(&Digest::of_bytes(b"other")).unwrap_err(), StoreError::NotFound);
    let wrong_size = Digest { fingerprint: HI_SHA256.to_vec(), size_bytes: 4 };
    store.put(b"hi\n");
    assert_eq!(store.load(&wrong_size).unwrap_err(), StoreError::NotFound);
}

#[test]
fn check_load_rejects_other_bytes() {
    let d = Digest::of_bytes(b"hi\n");
    assert_eq!(check_load(&d, Ok(b"ho\n".to_vec())).unwrap_err(), StoreError::HashMismatch);
    assert_eq!(check_load(&d, Ok(b"hi\n".to_vec())).unwrap(), b"hi\n".to_vec());
    assert_eq!(check_load(&d, Err(StoreError::Io)).unwrap_err(), StoreError::Io);
}

#[test]
fn materialize_round_trip() {
    let mut store = MemoryStore::new();
    let out = store.put(b"hi\n");
    let err = store.put(b"warn\n");
    let o = outcome(&out, &err);
    let result = materialize(&o, store.load(&out), store.load(&err)).unwrap();
    assert_eq!(result.stdout, b"hi\n".to_vec());
    assert_eq!(result.stderr, b"warn\n".to_vec());
    assert_eq!(result.stdout_digest, out);
    assert_eq!(result.stderr_digest, err);
    assert_eq!(result.exit_code, 0);
    assert_eq!(result.output_directory, Digest::empty());
    assert_eq!(result.metadata.source, ResultSource::LocallyExecuted);
    assert_eq!(result.metadata.source_run_id, 7);
    assert_eq!(result.metadata.total_elapsed_ms, Some(12));
}

#[test]
fn materialize_stderr_failure_names_stderr() {
    let mut store = MemoryStore::new();
    let out = store.put(b"hi\n");
    let missing = Digest::of_bytes(b"never stored");
    let o = outcome(&out, &missing);
    let failure = materialize(&o, store.load(&out), store.load(&missing)).unwrap_err();
    assert_eq!(failure.stages, vec![Stage::StderrBytes]);
    assert_eq!(failure.cause, Cause::Retrieval(StoreError::NotFound));
    assert_eq!(failure.stages[0].label(), "Bytes from stderr");
}

#[test]
fn materialize_stdout_failure_names_stdout() {
    let out = Digest::of_bytes(b"hi\n");
    let o = outcome(&out, &Digest::empty());
    let failure = materialize(&o, Err(StoreError::Io), Ok(Vec::new())).unwrap_err();
    assert_eq!(failure.stages, vec![Stage::StdoutBytes]);
    assert_eq!(failure.cause, Cause::Retrieval(StoreError::Io));
    assert_eq!(failure.stages[0].label(), "Bytes from stdout");
}

#[test]
fn retrieval_fails_fast_on_first_error() {
    let out = Digest::of_bytes(b"hi\n");
    let err = Digest::of_bytes(b"e");
    let r = Retrieval::start(outcome(&out, &err));
    match r.on_load(Stream::Stderr, Err(StoreError::NotFound)) {
        Progress::Done(Err(f)) => {
            assert_eq!(f.stages, vec![Stage::StderrBytes]);
            assert_eq!(f.cause, Cause::Retrieval(StoreError::NotFound));
        },
        _ => panic!("expected a failure"),
    }
}

#[test]
fn retrieval_stdout_then_stderr_failure() {
    let out = Digest::of_bytes(b"hi\n");
    let err = Digest::of_bytes(b"e");
    let r = Retrieval::start(outcome(&out, &err));
    let pending = match r.on_load(Stream::Stdout, Ok(b"hi\n".to_vec())) {
        Progress::Pending(p) => p,
        _ => panic!("expected pending"),
    };
    assert_eq!(pending.stdout, Some(b"hi\n".to_vec()));
    match pending.on_load(Stream::Stderr, Ok(b"not e".to_vec())) {
        Progress::Done(Err(f)) => {
            assert_eq!(f.stages, vec![Stage::StderrBytes]);
            assert_eq!(f.cause, Cause::Retrieval(StoreError::HashMismatch));
        },
        _ => panic!("expected a failure"),
    }
}

#[test]
fn retrieval_in_either_order_assembles() {
    let out = Digest::of_bytes(b"hi\n");
    let err = Digest::of_bytes(b"");
    let r = Retrieval::start(outcome(&out, &err));
    let pending = match r.on_load(Stream::Stderr, Ok(Vec::new())) {
        Progress::Pending(p) => p,
        _ => panic!("expected pending"),
    };
    match pending.on_load(Stream::Stdout, Ok(b"hi\n".to_vec())) {
        Progress::Done(Ok(result)) => {
            assert_eq!(result.stdout, b"hi\n".to_vec());
            assert_eq!(result.stderr, Vec::<u8>::new());
        },
        _ => panic!("expected a result"),
    }
}

#[test]
fn source_tags() {
    assert_eq!(ResultSource::LocallyExecuted.tag(), "locally-executed");
    assert_eq!(ResultSource::RemotelyExecuted.tag(), "remote-executed");
    assert_eq!(ResultSource::CacheHit.tag(), "cache-hit");
}

#[test]
fn enrich_puts_outer_stage_first() {
    let f = Failure::at(Stage::StdoutBytes, Cause::Retrieval(StoreError::Io)).enrich(Stage::Execution);
    assert_eq!(f.stages, vec![Stage::Execution, Stage::StdoutBytes]);
    assert_eq!(f.cause, Cause::Retrieval(StoreError::Io));
    assert_eq!(Failure::new(Cause::Cancelled).stages, Vec::<Stage>::new());
    assert_eq!(Stage::Execution.label(), "Error executing Process");
}
