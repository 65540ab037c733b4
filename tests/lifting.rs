use process_exec::digest::Digest;
use process_exec::request::{ExecutionEnvironment, LiftError, ProcessRequest, RawProcess};

fn strings(v: &[&str]) -> Vec<String> {
    v.iter().map(|s| s.to_string()).collect()
}

fn pairs(v: &[(&str, &str)]) -> Vec<(String, String)> {
    v.iter().map(|(k, x)| (k.to_string(), x.to_string())).collect()
}

fn local() -> ExecutionEnvironment {
    ExecutionEnvironment {
        platform: "local".to_string(),
        remote_execution: false,
        cache_read: true,
        cache_write: true,
    }
}

fn echo_hi() -> RawProcess {
    RawProcess {
        argv: strings(&["echo", "hi"]),
        env: Vec::new(),
        input_digest: Some(Digest::empty()),
        output_files: Vec::new(),
        timeout_ms: None,
    }
}

#[test]
fn lift_echo_keeps_command_and_policy() {
    let req = ProcessRequest::lift(&echo_hi(), &local()).unwrap();
    assert_eq!(req.argv, strings(&["echo", "hi"]));
    assert!(req.env.is_empty());
    assert_eq!(req.input_digest, Digest::empty());
    assert_eq!(req.timeout_ms, None);
    assert_eq!(req.environment.platform, "local");
    assert!(!req.environment.remote_execution);
}

#[test]
fn lift_env_last_write_wins_and_sorted() {
    let mut raw = echo_hi();
    raw.env = pairs(&[("PATH", "/bin"), ("HOME", "/root"), ("PATH", "/usr/bin"), ("A", "1")]);
    let req = ProcessRequest::lift(&raw, &local()).unwrap();
    assert_eq!(req.env, pairs(&[("A", "1"), ("HOME", "/root"), ("PATH", "/usr/bin")]));
}

#[test]
fn lift_outputs_sorted_without_repeats() {
    let mut raw = echo_hi();
    raw.output_files = strings(&["out/b.txt", "a.txt", "out/b.txt", "Z"]);
    let req = ProcessRequest::lift(&raw, &local()).unwrap();
    assert_eq!(req.output_files, strings(&["Z", "a.txt", "out/b.txt"]));
}

#[test]
fn lift_prefix_sorts_first() {
    let mut raw = echo_hi();
    raw.output_files = strings(&["ab", "a", ""]);
    let req = ProcessRequest::lift(&raw, &local()).unwrap();
    assert_eq!(req.output_files, strings(&["", "a", "ab"]));
}

#[test]
fn lift_zero_timeout_is_none() {
    let mut raw = echo_hi();
    raw.timeout_ms = Some(0);
    assert_eq!(ProcessRequest::lift(&raw, &local()).unwrap().timeout_ms, None);
    raw.timeout_ms = Some(1500);
    assert_eq!(ProcessRequest::lift(&raw, &local()).unwrap().timeout_ms, Some(1500));
}

#[test]
fn lift_negative_timeout_fails() {
    let mut raw = echo_hi();
    raw.timeout_ms = Some(-5);
    assert_eq!(
        ProcessRequest::lift(&raw, &local()).unwrap_err(),
        LiftError::NegativeTimeout { timeout_ms: -5 }
    );
}

#[test]
fn lift_missing_digest_fails() {
    let mut raw = echo_hi();
    raw.input_digest = None;
    assert_eq!(ProcessRequest::lift(&raw, &local()).unwrap_err(), LiftError::MissingInputDigest);
}

#[test]
fn lift_empty_command_fails() {
    let mut raw = echo_hi();
    raw.argv = Vec::new();
    assert_eq!(ProcessRequest::lift(&raw, &local()).unwrap_err(), LiftError::EmptyCommand);
}

#[test]
fn lift_malformed_env_names_first_bad_entry() {
    let mut raw = echo_hi();
    raw.env = pairs(&[("OK", "1"), ("BAD=X", "2"), ("", "3")]);
    assert_eq!(
        ProcessRequest::lift(&raw, &local()).unwrap_err(),
        LiftError::MalformedEnvironment { index: 1 }
    );
    raw.env = pairs(&[("", "3")]);
    assert_eq!(
        ProcessRequest::lift(&raw, &local()).unwrap_err(),
        LiftError::MalformedEnvironment { index: 0 }
    );
}

#[test]
fn lift_twice_gives_same_work() {
    let mut raw = echo_hi();
    raw.env = pairs(&[("B", "2"), ("A", "1"), ("B", "3")]);
    raw.output_files = strings(&["y", "x"]);
    raw.timeout_ms = Some(10);
    let first = ProcessRequest::lift(&raw, &local()).unwrap();
    let second = ProcessRequest::lift(&raw, &local()).unwrap();
    assert!(first.same_work(&second));
    assert!(second.same_work(&first));
}

#[test]
fn requests_differing_in_one_field_are_distinct() {
    let first = ProcessRequest::lift(&echo_hi(), &local()).unwrap();
    let mut raw = echo_hi();
    raw.timeout_ms = Some(1);
    let second = ProcessRequest::lift(&raw, &local()).unwrap();
    assert!(!first.same_work(&second));
    let mut remote = local();
    remote.remote_execution = true;
    let third = ProcessRequest::lift(&echo_hi(), &remote).unwrap();
    assert!(!first.same_work(&third));
    assert!(first.same_work(&first.duplicate()));
}
