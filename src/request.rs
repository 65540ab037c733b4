use vstd::prelude::*;
use crate::digest::{Digest, DigestView};
use crate::text::{
    copy_strings, lemma_lex_irreflexive, lemma_lex_total, lemma_lex_transitive, lex_lt, str_contains,
    str_less, strings_equal, strs,
};

verus! {

/// The caller's choice of where and how a process may run.
#[derive(Clone, Debug)]
pub struct ExecutionEnvironment {
    pub platform: String,
    pub remote_execution: bool,
    pub cache_read: bool,
    pub cache_write: bool,
}

pub struct PolicyView {
    pub platform: Seq<char>,
    pub remote_execution: bool,
    pub cache_read: bool,
    pub cache_write: bool,
}

impl View for ExecutionEnvironment {
    type V = PolicyView;

    open spec fn view(&self) -> PolicyView {
        PolicyView {
            platform: self.platform@,
            remote_execution: self.remote_execution,
            cache_read: self.cache_read,
            cache_write: self.cache_write,
        }
    }
}

impl ExecutionEnvironment {
    pub fn duplicate(&self) -> (r: ExecutionEnvironment)
        ensures
            r@ == self@,
    {
        ExecutionEnvironment {
            platform: self.platform.clone(),
            remote_execution: self.remote_execution,
            cache_read: self.cache_read,
            cache_write: self.cache_write,
        }
    }

    pub fn same_as(&self, other: &ExecutionEnvironment) -> (r: bool)
        ensures
            r == (self@ == other@),
    {
        self.platform == other.platform && self.remote_execution == other.remote_execution
            && self.cache_read == other.cache_read && self.cache_write == other.cache_write
    }
}

/// A process description as a caller writes it, before validation.
#[derive(Clone, Debug)]
pub struct RawProcess {
    pub argv: Vec<String>,
    pub env: Vec<(String, String)>,
    pub input_digest: Option<Digest>,
    pub output_files: Vec<String>,
    pub timeout_ms: Option<i64>,
}

pub struct RawView {
    pub argv: Seq<Seq<char>>,
    pub env: Seq<(Seq<char>, Seq<char>)>,
    pub input_digest: Option<DigestView>,
    pub output_files: Seq<Seq<char>>,
    pub timeout_ms: Option<i64>,
}

/// The character views of environment entries.
pub open spec fn env_pairs(v: Seq<(String, String)>) -> Seq<(Seq<char>, Seq<char>)> {
    v.map_values(|p: (String, String)| (p.0@, p.1@))
}

pub open spec fn opt_digest(d: Option<Digest>) -> Option<DigestView> {
    match d {
        Some(x) => Some(x@),
        None => None,
    }
}

impl View for RawProcess {
    type V = RawView;

    open spec fn view(&self) -> RawView {
        RawView {
            argv: strs(self.argv@),
            env: env_pairs(self.env@),
            input_digest: opt_digest(self.input_digest),
            output_files: strs(self.output_files@),
            timeout_ms: self.timeout_ms,
        }
    }
}

/// A canonical, validated description of a process to run. Two requests
/// are the same work exactly when their views are equal.
#[derive(Clone, Debug)]
pub struct ProcessRequest {
    pub argv: Vec<String>,
    pub env: Vec<(String, String)>,
    pub input_digest: Digest,
    pub output_files: Vec<String>,
    pub timeout_ms: Option<u64>,
    pub environment: ExecutionEnvironment,
}

pub struct RequestView {
    pub argv: Seq<Seq<char>>,
    pub env: Seq<(Seq<char>, Seq<char>)>,
    pub input_digest: DigestView,
    pub output_files: Seq<Seq<char>>,
    pub timeout_ms: Option<u64>,
    pub environment: PolicyView,
}

impl View for ProcessRequest {
    type V = RequestView;

    open spec fn view(&self) -> RequestView {
        RequestView {
            argv: strs(self.argv@),
            env: env_pairs(self.env@),
            input_digest: self.input_digest@,
            output_files: strs(self.output_files@),
            timeout_ms: self.timeout_ms,
            environment: self.environment@,
        }
    }
}

/// Why a raw process description could not be lifted.
#[derive(PartialEq, Eq, Structural, Clone, Copy, Debug)]
pub enum LiftError {
    /// The command line holds no program.
    EmptyCommand,
    /// The environment entry at `index` has an empty name or a name holding `=`.
    MalformedEnvironment { index: usize },
    /// No digest was given for the input files.
    MissingInputDigest,
    /// The timeout is negative.
    NegativeTimeout { timeout_ms: i64 },
}

/// Whether an environment variable name is acceptable.
pub open spec fn env_name_ok(name: Seq<char>) -> bool {
    name.len() > 0 && !name.contains('=')
}

/// `i` is the first environment entry whose name is unacceptable.
pub open spec fn first_bad_env(env: Seq<(Seq<char>, Seq<char>)>, i: int) -> bool {
    0 <= i < env.len() && !env_name_ok(env[i].0) && forall|j: int|
        0 <= j < i ==> env_name_ok(#[trigger] env[j].0)
}

/// The index of the first unacceptable environment entry, where there is one.
pub open spec fn first_bad_index(env: Seq<(Seq<char>, Seq<char>)>) -> int {
    choose|i: int| first_bad_env(env, i)
}

/// Sets `name` to `value` in an environment kept sorted by name: an entry of
/// the same name is replaced, else a new entry goes in its place in order.
pub open spec fn env_put(env: Seq<(Seq<char>, Seq<char>)>, name: Seq<char>, value: Seq<char>) -> Seq<
    (Seq<char>, Seq<char>),
>
    decreases env.len(),
{
    if env.len() == 0 {
        seq![(name, value)]
    } else if lex_lt(env[0].0, name) {
        seq![env[0]] + env_put(env.drop_first(), name, value)
    } else if env[0].0 == name {
        seq![(name, value)] + env.drop_first()
    } else {
        seq![(name, value)] + env
    }
}

/// The environment that a sequence of entries sets, sorted by name, where a
/// later entry for a name wins over an earlier one.
pub open spec fn canonical_env(raw: Seq<(Seq<char>, Seq<char>)>) -> Seq<(Seq<char>, Seq<char>)>
    decreases raw.len(),
{
    if raw.len() == 0 {
        Seq::empty()
    } else {
        env_put(canonical_env(raw.drop_last()), raw.last().0, raw.last().1)
    }
}

/// Adds `path` to a sorted list of distinct paths.
pub open spec fn path_put(paths: Seq<Seq<char>>, path: Seq<char>) -> Seq<Seq<char>>
    decreases paths.len(),
{
    if paths.len() == 0 {
        seq![path]
    } else if lex_lt(paths[0], path) {
        seq![paths[0]] + path_put(paths.drop_first(), path)
    } else if paths[0] == path {
        paths
    } else {
        seq![path] + paths
    }
}

/// The declared output paths, sorted and without repeats.
pub open spec fn canonical_paths(raw: Seq<Seq<char>>) -> Seq<Seq<char>>
    decreases raw.len(),
{
    if raw.len() == 0 {
        Seq::empty()
    } else {
        path_put(canonical_paths(raw.drop_last()), raw.last())
    }
}

/// A timeout of zero, or none, means that the process has no timeout.
pub open spec fn canonical_timeout(t: Option<i64>) -> Result<Option<u64>, LiftError> {
    match t {
        None => Ok(None),
        Some(ms) => if ms < 0 {
            Err(LiftError::NegativeTimeout { timeout_ms: ms })
        } else if ms == 0 {
            Ok(None)
        } else {
            Ok(Some(ms as u64))
        },
    }
}

/// What lifting a raw description under a policy gives.
pub open spec fn lifted(raw: RawView, policy: PolicyView) -> Result<RequestView, LiftError> {
    if raw.argv.len() == 0 {
        Err(LiftError::EmptyCommand)
    } else if exists|i: int| first_bad_env(raw.env, i) {
        Err(
            LiftError::MalformedEnvironment {
                index: first_bad_index(raw.env) as usize,
            },
        )
    } else if raw.input_digest is None {
        Err(LiftError::MissingInputDigest)
    } else {
        match canonical_timeout(raw.timeout_ms) {
            Err(e) => Err(e),
            Ok(timeout_ms) => Ok(
                RequestView {
                    argv: raw.argv,
                    env: canonical_env(raw.env),
                    input_digest: raw.input_digest->Some_0,
                    output_files: canonical_paths(raw.output_files),
                    timeout_ms,
                    environment: policy,
                },
            ),
        }
    }
}

proof fn lemma_env_put_prefix(
    s: Seq<(Seq<char>, Seq<char>)>,
    name: Seq<char>,
    value: Seq<char>,
    i: int,
)
    requires
        0 <= i <= s.len(),
        forall|j: int| 0 <= j < i ==> lex_lt(#[trigger] s[j].0, name),
    ensures
        env_put(s, name, value) == s.take(i) + env_put(s.skip(i), name, value),
    decreases i,
{
    if i == 0 {
        assert(s.take(0) =~= Seq::<(Seq<char>, Seq<char>)>::empty());
        assert(s.skip(0) =~= s);
    } else {
        let t = s.drop_first();
        assert forall|j: int| 0 <= j < i - 1 implies lex_lt(#[trigger] t[j].0, name) by {
            assert(t[j] == s[j + 1]);
        }
        lemma_env_put_prefix(t, name, value, i - 1);
        assert(lex_lt(s[0].0, name));
        assert(s.take(i) =~= seq![s[0]] + t.take(i - 1));
        assert(t.skip(i - 1) =~= s.skip(i));
    }
}

proof fn lemma_path_put_prefix(s: Seq<Seq<char>>, path: Seq<char>, i: int)
    requires
        0 <= i <= s.len(),
        forall|j: int| 0 <= j < i ==> lex_lt(#[trigger] s[j], path),
    ensures
        path_put(s, path) == s.take(i) + path_put(s.skip(i), path),
    decreases i,
{
    if i == 0 {
        assert(s.take(0) =~= Seq::<Seq<char>>::empty());
        assert(s.skip(0) =~= s);
    } else {
        let t = s.drop_first();
        assert forall|j: int| 0 <= j < i - 1 implies lex_lt(#[trigger] t[j], path) by {
            assert(t[j] == s[j + 1]);
        }
        lemma_path_put_prefix(t, path, i - 1);
        assert(lex_lt(s[0], path));
        assert(s.take(i) =~= seq![s[0]] + t.take(i - 1));
        assert(t.skip(i - 1) =~= s.skip(i));
    }
}

/// Sets `name` to `value` in an environment kept sorted by name.
pub fn env_insert(env: &mut Vec<(String, String)>, name: String, value: String)
    ensures
        env_pairs(final(env)@) == env_put(env_pairs(old(env)@), name@, value@),
{
    let ghost s = env_pairs(env@);
    let mut i: usize = 0;
    while i < env.len()
        invariant
            0 <= i <= env@.len(),
            s == env_pairs(env@),
            forall|j: int| 0 <= j < i ==> lex_lt(#[trigger] s[j].0, name@),
        ensures
            i <= env@.len(),
            s == env_pairs(env@),
            forall|j: int| 0 <= j < i ==> lex_lt(#[trigger] s[j].0, name@),
            i < env@.len() ==> !lex_lt(s[i as int].0, name@),
        decreases env@.len() - i,
    {
        if !str_less(env[i].0.as_str(), name.as_str()) {
            break;
        }
        i = i + 1;
    }
    proof {
        lemma_env_put_prefix(s, name@, value@, i as int);
    }
    if i == env.len() {
        env.push((name, value));
        assert(s.skip(i as int) =~= Seq::<(Seq<char>, Seq<char>)>::empty());
        assert(s.take(i as int) =~= s);
        assert(env_pairs(env@) =~= s.take(i as int) + env_put(s.skip(i as int), name@, value@));
    } else if env[i].0 == name {
        assert(s.skip(i as int)[0] == s[i as int]);
        assert(s.skip(i as int).drop_first() =~= s.skip(i + 1));
        env.set(i, (name, value));
        assert(env_pairs(env@) =~= s.take(i as int) + env_put(s.skip(i as int), name@, value@));
    } else {
        assert(s.skip(i as int)[0] == s[i as int]);
        env.insert(i, (name, value));
        assert(env_pairs(env@) =~= s.take(i as int) + env_put(s.skip(i as int), name@, value@));
    }
}

/// Adds `path` to a sorted list of distinct paths.
pub fn path_insert(paths: &mut Vec<String>, path: String)
    ensures
        strs(final(paths)@) == path_put(strs(old(paths)@), path@),
{
    let ghost s = strs(paths@);
    let mut i: usize = 0;
    while i < paths.len()
        invariant
            0 <= i <= paths@.len(),
            s == strs(paths@),
            forall|j: int| 0 <= j < i ==> lex_lt(#[trigger] s[j], path@),
        ensures
            i <= paths@.len(),
            s == strs(paths@),
            forall|j: int| 0 <= j < i ==> lex_lt(#[trigger] s[j], path@),
            i < paths@.len() ==> !lex_lt(s[i as int], path@),
        decreases paths@.len() - i,
    {
        if !str_less(paths[i].as_str(), path.as_str()) {
            break;
        }
        i = i + 1;
    }
    proof {
        lemma_path_put_prefix(s, path@, i as int);
    }
    if i == paths.len() {
        paths.push(path);
        assert(s.skip(i as int) =~= Seq::<Seq<char>>::empty());
        assert(s.take(i as int) =~= s);
        assert(strs(paths@) =~= s.take(i as int) + path_put(s.skip(i as int), path@));
    } else if paths[i] == path {
        assert(s.skip(i as int)[0] == s[i as int]);
        assert(s =~= s.take(i as int) + s.skip(i as int));
    } else {
        assert(s.skip(i as int)[0] == s[i as int]);
        paths.insert(i, path);
        assert(strs(paths@) =~= s.take(i as int) + path_put(s.skip(i as int), path@));
    }
}

/// The canonical form of a list of environment entries.
pub fn canonical_environment(raw: &Vec<(String, String)>) -> (r: Vec<(String, String)>)
    ensures
        env_pairs(r@) == canonical_env(env_pairs(raw@)),
{
    let ghost s = env_pairs(raw@);
    let mut r: Vec<(String, String)> = Vec::new();
    let mut i: usize = 0;
    assert(s.take(0) =~= Seq::<(Seq<char>, Seq<char>)>::empty());
    while i < raw.len()
        invariant
            0 <= i <= raw@.len(),
            s == env_pairs(raw@),
            env_pairs(r@) == canonical_env(s.take(i as int)),
        decreases raw@.len() - i,
    {
        let name = raw[i].0.clone();
        let value = raw[i].1.clone();
        env_insert(&mut r, name, value);
        assert(s.take(i + 1).drop_last() =~= s.take(i as int));
        assert(s.take(i + 1).last() == s[i as int]);
        i = i + 1;
    }
    assert(s.take(raw@.len() as int) =~= s);
    r
}

/// The declared output paths, sorted and without repeats.
pub fn canonical_output_paths(raw: &Vec<String>) -> (r: Vec<String>)
    ensures
        strs(r@) == canonical_paths(strs(raw@)),
{
    let ghost s = strs(raw@);
    let mut r: Vec<String> = Vec::new();
    let mut i: usize = 0;
    assert(s.take(0) =~= Seq::<Seq<char>>::empty());
    while i < raw.len()
        invariant
            0 <= i <= raw@.len(),
            s == strs(raw@),
            strs(r@) == canonical_paths(s.take(i as int)),
        decreases raw@.len() - i,
    {
        path_insert(&mut r, raw[i].clone());
        assert(s.take(i + 1).drop_last() =~= s.take(i as int));
        assert(s.take(i + 1).last() == s[i as int]);
        i = i + 1;
    }
    assert(s.take(raw@.len() as int) =~= s);
    r
}

/// A fresh copy of environment entries.
pub fn copy_env(v: &Vec<(String, String)>) -> (r: Vec<(String, String)>)
    ensures
        env_pairs(r@) == env_pairs(v@),
{
    let mut r: Vec<(String, String)> = Vec::new();
    let mut i: usize = 0;
    while i < v.len()
        invariant
            0 <= i <= v@.len(),
            env_pairs(r@) == env_pairs(v@).take(i as int),
        decreases v@.len() - i,
    {
        let name = v[i].0.clone();
        let value = v[i].1.clone();
        let ghost prev = r@;
        r.push((name, value));
        assert(env_pairs(r@) =~= env_pairs(prev).push((v@[i as int].0@, v@[i as int].1@)));
        assert(env_pairs(v@).take(i + 1) =~= env_pairs(v@).take(i as int).push(env_pairs(v@)[i as int]));
        i = i + 1;
    }
    assert(env_pairs(v@).take(v@.len() as int) =~= env_pairs(v@));
    r
}

/// Whether two lists of environment entries hold the same text, in order.
pub fn env_equal(a: &Vec<(String, String)>, b: &Vec<(String, String)>) -> (r: bool)
    ensures
        r == (env_pairs(a@) == env_pairs(b@)),
{
    if a.len() != b.len() {
        assert(env_pairs(a@).len() != env_pairs(b@).len());
        return false;
    }
    let mut i: usize = 0;
    while i < a.len()
        invariant
            a@.len() == b@.len(),
            0 <= i <= a@.len(),
            forall|j: int| 0 <= j < i ==> env_pairs(a@)[j] == env_pairs(b@)[j],
        decreases a@.len() - i,
    {
        if a[i].0 != b[i].0 || a[i].1 != b[i].1 {
            assert(env_pairs(a@)[i as int] != env_pairs(b@)[i as int]);
            return false;
        }
        i = i + 1;
    }
    assert(env_pairs(a@) =~= env_pairs(b@));
    true
}

/// Whether a name is acceptable for an environment variable.
pub fn valid_env_name(name: &String) -> (r: bool)
    ensures
        r == env_name_ok(name@),
{
    name.as_str().unicode_len() > 0 && !str_contains(name.as_str(), '=')
}

/// Validates a timeout; zero and none both mean no timeout.
pub fn normalize_timeout(t: Option<i64>) -> (r: Result<Option<u64>, LiftError>)
    ensures
        r == canonical_timeout(t),
{
    match t {
        None => Ok(None),
        Some(ms) => if ms < 0 {
            Err(LiftError::NegativeTimeout { timeout_ms: ms })
        } else if ms == 0 {
            Ok(None)
        } else {
            Ok(Some(ms as u64))
        },
    }
}

/// Whether a lift result agrees with what lifting is specified to give.
pub open spec fn lift_agrees(r: Result<ProcessRequest, LiftError>, s: Result<RequestView, LiftError>) -> bool {
    match (r, s) {
        (Ok(req), Ok(v)) => req@ == v,
        (Err(e), Err(f)) => e == f,
        _ => false,
    }
}

impl ProcessRequest {
    /// Validates and canonicalizes a raw description under a policy.
    pub fn lift(raw: &RawProcess, policy: &ExecutionEnvironment) -> (r: Result<ProcessRequest, LiftError>)
        ensures
            lift_agrees(r, lifted(raw@, policy@)),
    {
        if raw.argv.len() == 0 {
            return Err(LiftError::EmptyCommand);
        }
        assert(raw@.argv.len() == raw.argv@.len());
        let mut i: usize = 0;
        while i < raw.env.len()
            invariant
                0 <= i <= raw.env@.len(),
                raw@.argv.len() > 0,
                forall|j: int| 0 <= j < i ==> env_name_ok(#[trigger] raw@.env[j].0),
            decreases raw.env@.len() - i,
        {
            if !valid_env_name(&raw.env[i].0) {
                let ghost e = raw@.env;
                assert(e[i as int].0 == raw.env@[i as int].0@);
                assert(first_bad_env(e, i as int));
                proof {
                    let c = first_bad_index(e);
                    if c < i {
                        assert(env_name_ok(e[c].0));
                    }
                    if c > i {
                        assert(env_name_ok(e[i as int].0));
                    }
                    assert(c == i);
                }
                assert(lifted(raw@, policy@) == Err::<RequestView, LiftError>(LiftError::MalformedEnvironment { index: i }));
                return Err(LiftError::MalformedEnvironment { index: i });
            }
            i = i + 1;
        }
        assert(!exists|c: int| first_bad_env(raw@.env, c));
        let input_digest = match &raw.input_digest {
            None => {
                return Err(LiftError::MissingInputDigest);
            },
            Some(d) => d.duplicate(),
        };
        let timeout_ms = match normalize_timeout(raw.timeout_ms) {
            Err(e) => {
                return Err(e);
            },
            Ok(t) => t,
        };
        Ok(
            ProcessRequest {
                argv: copy_strings(&raw.argv),
                env: canonical_environment(&raw.env),
                input_digest,
                output_files: canonical_output_paths(&raw.output_files),
                timeout_ms,
                environment: policy.duplicate(),
            },
        )
    }

    /// A copy that is the same work.
    pub fn duplicate(&self) -> (r: ProcessRequest)
        ensures
            r@ == self@,
    {
        ProcessRequest {
            argv: copy_strings(&self.argv),
            env: copy_env(&self.env),
            input_digest: self.input_digest.duplicate(),
            output_files: copy_strings(&self.output_files),
            timeout_ms: self.timeout_ms,
            environment: self.environment.duplicate(),
        }
    }

    /// Whether two requests are the same work: equal in every field.
    pub fn same_work(&self, other: &ProcessRequest) -> (r: bool)
        ensures
            r == (self@ == other@),
    {
        let same_timeout = match (self.timeout_ms, other.timeout_ms) {
            (None, None) => true,
            (Some(a), Some(b)) => a == b,
            _ => false,
        };
        strings_equal(&self.argv, &other.argv) && env_equal(&self.env, &other.env)
            && self.input_digest.same_as(&other.input_digest) && strings_equal(
            &self.output_files,
            &other.output_files,
        ) && same_timeout && self.environment.same_as(&other.environment)
    }
}

/// Lifting is deterministic: the same raw description and policy, lifted
/// twice, give requests that are the same work, or the same error.
pub proof fn lemma_lift_idempotent(
    raw: RawProcess,
    policy: ExecutionEnvironment,
    first: Result<ProcessRequest, LiftError>,
    second: Result<ProcessRequest, LiftError>,
)
    requires
        lift_agrees(first, lifted(raw@, policy@)),
        lift_agrees(second, lifted(raw@, policy@)),
    ensures
        first is Ok <==> second is Ok,
        first is Ok ==> first->Ok_0@ == second->Ok_0@,
        first is Err ==> first->Err_0 == second->Err_0,
{
}

/// Each string comes strictly before the next, so none is repeated.
pub open spec fn strictly_sorted(s: Seq<Seq<char>>) -> bool {
    forall|i: int, j: int| 0 <= i < j < s.len() ==> lex_lt(s[i], s[j])
}

/// The names of environment entries, in order.
pub open spec fn env_keys(env: Seq<(Seq<char>, Seq<char>)>) -> Seq<Seq<char>> {
    env.map_values(|p: (Seq<char>, Seq<char>)| p.0)
}

/// The value of the first entry named `name`.
pub open spec fn env_get(env: Seq<(Seq<char>, Seq<char>)>, name: Seq<char>) -> Option<Seq<char>>
    decreases env.len(),
{
    if env.len() == 0 {
        None
    } else if env[0].0 == name {
        Some(env[0].1)
    } else {
        env_get(env.drop_first(), name)
    }
}

/// The value of the last entry named `name`: the one that wins.
pub open spec fn last_write(raw: Seq<(Seq<char>, Seq<char>)>, name: Seq<char>) -> Option<Seq<char>>
    decreases raw.len(),
{
    if raw.len() == 0 {
        None
    } else if raw.last().0 == name {
        Some(raw.last().1)
    } else {
        last_write(raw.drop_last(), name)
    }
}

proof fn lemma_path_put_sorted(s: Seq<Seq<char>>, p: Seq<char>)
    requires
        strictly_sorted(s),
    ensures
        strictly_sorted(path_put(s, p)),
        forall|x: Seq<char>| #[trigger] path_put(s, p).contains(x) <==> (s.contains(x) || x == p),
    decreases s.len(),
{
    let r = path_put(s, p);
    if s.len() == 0 {
        assert(r[0] == p);
    } else if lex_lt(s[0], p) {
        let t = s.drop_first();
        assert forall|i: int, j: int| 0 <= i < j < t.len() implies lex_lt(t[i], t[j]) by {
            assert(t[i] == s[i + 1] && t[j] == s[j + 1]);
        }
        lemma_path_put_sorted(t, p);
        let q = path_put(t, p);
        assert(r == seq![s[0]] + q);
        assert forall|k: int| 0 <= k < q.len() implies lex_lt(s[0], q[k]) by {
            assert(q.contains(q[k]));
            if t.contains(q[k]) {
                let m = choose|m: int| 0 <= m < t.len() && t[m] == q[k];
                assert(s[m + 1] == q[k]);
            }
        }
        assert forall|i: int, j: int| 0 <= i < j < r.len() implies lex_lt(r[i], r[j]) by {
            if i > 0 {
                assert(r[i] == q[i - 1] && r[j] == q[j - 1]);
            } else {
                assert(r[j] == q[j - 1]);
            }
        }
        assert forall|x: Seq<char>| r.contains(x) <==> (s.contains(x) || x == p) by {
            if r.contains(x) {
                let m = choose|m: int| 0 <= m < r.len() && r[m] == x;
                if m > 0 {
                    assert(q[m - 1] == x);
                    assert(q.contains(x));
                    if t.contains(x) {
                        let n = choose|n: int| 0 <= n < t.len() && t[n] == x;
                        assert(s[n + 1] == x);
                        assert(s.contains(x));
                    }
                } else {
                    assert(s[0] == x);
                    assert(s.contains(x));
                }
            }
            if s.contains(x) {
                let m = choose|m: int| 0 <= m < s.len() && s[m] == x;
                if m > 0 {
                    assert(t[m - 1] == x);
                    assert(t.contains(x));
                    assert(q.contains(x));
                    let n = choose|n: int| 0 <= n < q.len() && q[n] == x;
                    assert(r[n + 1] == x);
                    assert(r.contains(x));
                } else {
                    assert(r[0] == x);
                    assert(r.contains(x));
                }
            }
            if x == p {
                assert(q.contains(p));
                let n = choose|n: int| 0 <= n < q.len() && q[n] == p;
                assert(r[n + 1] == p);
                assert(r.contains(x));
            }
        }
    } else if s[0] == p {
        assert(s.contains(p));
    } else {
        lemma_lex_total(s[0], p);
        assert(r == seq![p] + s);
        assert forall|i: int, j: int| 0 <= i < j < r.len() implies lex_lt(r[i], r[j]) by {
            if i > 0 {
                assert(r[i] == s[i - 1] && r[j] == s[j - 1]);
            } else {
                assert(r[j] == s[j - 1]);
                if j > 1 {
                    lemma_lex_transitive(p, s[0], s[j - 1]);
                }
            }
        }
        assert forall|x: Seq<char>| r.contains(x) <==> (s.contains(x) || x == p) by {
            if r.contains(x) {
                let m = choose|m: int| 0 <= m < r.len() && r[m] == x;
                if m > 0 {
                    assert(s[m - 1] == x);
                }
            }
            if s.contains(x) {
                let m = choose|m: int| 0 <= m < s.len() && s[m] == x;
                assert(r[m + 1] == x);
            }
            if x == p {
                assert(r[0] == x);
            }
        }
    }
}

/// The canonical output paths are strictly sorted, so without repeats, and
/// hold exactly the paths that were declared.
pub proof fn lemma_canonical_paths(raw: Seq<Seq<char>>)
    ensures
        strictly_sorted(canonical_paths(raw)),
        forall|x: Seq<char>| canonical_paths(raw).contains(x) <==> raw.contains(x),
    decreases raw.len(),
{
    if raw.len() > 0 {
        let d = raw.drop_last();
        lemma_canonical_paths(d);
        lemma_path_put_sorted(canonical_paths(d), raw.last());
        assert forall|x: Seq<char>| canonical_paths(raw).contains(x) <==> raw.contains(x) by {
            if d.contains(x) {
                let m = choose|m: int| 0 <= m < d.len() && d[m] == x;
                assert(raw[m] == x);
            }
            if raw.contains(x) {
                let m = choose|m: int| 0 <= m < raw.len() && raw[m] == x;
                if m < raw.len() - 1 {
                    assert(d[m] == x);
                }
            }
            assert(raw[raw.len() - 1] == raw.last());
        }
    }
}

proof fn lemma_env_put_keys(s: Seq<(Seq<char>, Seq<char>)>, k: Seq<char>, v: Seq<char>)
    ensures
        env_keys(env_put(s, k, v)) == path_put(env_keys(s), k),
        forall|x: Seq<char>| #[trigger] env_get(env_put(s, k, v), x) == if x == k {
            Some(v)
        } else {
            env_get(s, x)
        },
    decreases s.len(),
{
    let ks = env_keys(s);
    let r = env_put(s, k, v);
    if s.len() == 0 {
        assert(r =~= seq![(k, v)]);
        assert(env_keys(r) =~= seq![k]);
        assert forall|x: Seq<char>| #[trigger] env_get(r, x) == if x == k {
            Some(v)
        } else {
            env_get(s, x)
        } by {
            assert(r[0] == (k, v));
            assert(r.drop_first().len() == 0);
            assert(env_get(r.drop_first(), x) is None);
            assert(env_get(s, x) is None);
            if x != k {
                assert(env_get(r, x) == env_get(r.drop_first(), x));
            }
        }
    } else {
        assert(ks[0] == s[0].0);
        assert(ks.drop_first() =~= env_keys(s.drop_first()));
        if lex_lt(s[0].0, k) {
            let t = s.drop_first();
            lemma_env_put_keys(t, k, v);
            lemma_lex_irreflexive(k);
            assert(r[0] == s[0]);
            assert(r.drop_first() =~= env_put(t, k, v));
            assert(env_keys(r) =~= seq![s[0].0] + env_keys(env_put(t, k, v)));
            assert forall|x: Seq<char>| #[trigger] env_get(r, x) == if x == k {
                Some(v)
            } else {
                env_get(s, x)
            } by {
                assert(r.len() > 0 && s.len() > 0);
                assert(env_get(env_put(t, k, v), x) == if x == k {
                    Some(v)
                } else {
                    env_get(t, x)
                });
                if s[0].0 == x {
                    assert(x != k);
                    assert(env_get(r, x) == Some(s[0].1));
                    assert(env_get(s, x) == Some(s[0].1));
                } else {
                    assert(env_get(r, x) == env_get(r.drop_first(), x));
                    assert(env_get(s, x) == env_get(t, x));
                }
            }
        } else if s[0].0 == k {
            assert(r[0] == (k, v));
            assert(r.drop_first() =~= s.drop_first());
            assert(env_keys(r) =~= ks);
            assert forall|x: Seq<char>| #[trigger] env_get(r, x) == if x == k {
                Some(v)
            } else {
                env_get(s, x)
            } by {}
        } else {
            assert(r[0] == (k, v));
            assert(r.drop_first() =~= s);
            assert(env_keys(r) =~= seq![k] + ks);
            assert forall|x: Seq<char>| #[trigger] env_get(r, x) == if x == k {
                Some(v)
            } else {
                env_get(s, x)
            } by {}
        }
    }
}

/// The canonical environment is sorted by name without repeated names,
/// sets exactly the names that the raw entries set, and gives each name the
/// value of its last raw entry.
pub proof fn lemma_canonical_env(raw: Seq<(Seq<char>, Seq<char>)>)
    ensures
        env_keys(canonical_env(raw)) == canonical_paths(env_keys(raw)),
        strictly_sorted(env_keys(canonical_env(raw))),
        forall|x: Seq<char>| env_keys(canonical_env(raw)).contains(x) <==> env_keys(raw).contains(x),
        forall|x: Seq<char>| #[trigger] env_get(canonical_env(raw), x) == last_write(raw, x),
    decreases raw.len(),
{
    if raw.len() == 0 {
        assert(env_keys(raw) =~= Seq::<Seq<char>>::empty());
        assert(env_keys(canonical_env(raw)) =~= Seq::<Seq<char>>::empty());
    } else {
        let d = raw.drop_last();
        lemma_canonical_env(d);
        lemma_env_put_keys(canonical_env(d), raw.last().0, raw.last().1);
        assert(env_keys(raw).drop_last() =~= env_keys(d));
        assert(env_keys(raw).last() == raw.last().0);
    }
    lemma_canonical_paths(env_keys(raw));
}

} // verus!
