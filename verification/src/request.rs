//! The startup description of a process to run: argument vector,
//! environment, declared inputs, and the knobs a pooled server start needs.
//! Everything is held as plain values so that contracts can speak about all
//! of it.

use vstd::prelude::*;

verus! {

/// The platform a request targets.
#[derive(Clone, Copy, Debug, PartialEq, Eq, Structural)]
pub enum Platform {
    Darwin,
    Linux,
}

/// A content-addressed reference to a request's declared input files: the
/// content hash and the total size of the addressed tree.
#[derive(Clone, Copy, Debug, PartialEq, Eq, Structural)]
pub struct Digest {
    /// The content hash of the input tree.
    pub hash: u64,
    /// The size in bytes of the addressed tree.
    pub size_bytes: u64,
}

/// A generic request to execute one process.
pub struct ExecuteProcessRequest {
    /// The command and its arguments; the command itself is `argv[0]`.
    pub argv: Vec<String>,
    /// The environment handed to the process, keys unique.
    pub env: Vec<(String, String)>,
    /// The declared input files, as a content-addressed reference.
    pub input_files: Digest,
    /// Files the caller wants captured after the run.
    pub output_files: Vec<String>,
    /// Directories the caller wants captured after the run.
    pub output_directories: Vec<String>,
    /// How long the process may run, in seconds.
    pub timeout_seconds: u64,
    /// A human-readable description of the request.
    pub description: String,
    /// The JDK installation the process needs, if any.
    pub jdk_home: Option<String>,
    /// The platform the request targets.
    pub target_platform: Platform,
    /// Whether the request may be routed through the worker pool.
    pub is_nailgunnable: bool,
}

/// The mathematical shape of a request: every field as a sequence or plain
/// value.
pub struct RequestModel {
    /// The argument vector.
    pub argv: Seq<Seq<char>>,
    /// The environment pairs, in order.
    pub env: Seq<(Seq<char>, Seq<char>)>,
    /// The declared input reference.
    pub input_files: Digest,
    /// Output files to capture.
    pub output_files: Seq<Seq<char>>,
    /// Output directories to capture.
    pub output_directories: Seq<Seq<char>>,
    /// The timeout in seconds.
    pub timeout_seconds: u64,
    /// The description.
    pub description: Seq<char>,
    /// The JDK reference, if any.
    pub jdk_home: Option<Seq<char>>,
    /// The platform tag.
    pub target_platform: Platform,
    /// The poolability flag.
    pub is_nailgunnable: bool,
}

impl View for ExecuteProcessRequest {
    type V = RequestModel;

    open spec fn view(&self) -> RequestModel {
        RequestModel {
            argv: self.argv.deep_view(),
            env: self.env.deep_view(),
            input_files: self.input_files,
            output_files: self.output_files.deep_view(),
            output_directories: self.output_directories.deep_view(),
            timeout_seconds: self.timeout_seconds,
            description: self.description@,
            jdk_home: self.jdk_home.deep_view(),
            target_platform: self.target_platform,
            is_nailgunnable: self.is_nailgunnable,
        }
    }
}

/// The index of the first pair in `env` whose key is `key`, or `-1`.
pub open spec fn env_index_of(env: Seq<(Seq<char>, Seq<char>)>, key: Seq<char>) -> int
    decreases env.len(),
{
    if env.len() == 0 {
        -1
    } else if env[0].0 == key {
        0
    } else if env_index_of(env.drop_first(), key) == -1 {
        -1
    } else {
        env_index_of(env.drop_first(), key) + 1
    }
}

/// `env_index_of` finds the first pair with the given key, and `-1` means
/// no pair has it.
pub proof fn lemma_env_index_of(env: Seq<(Seq<char>, Seq<char>)>, key: Seq<char>)
    ensures
        env_index_of(env, key) == -1 ==> forall|i: int| 0 <= i < env.len() ==> env[i].0 != key,
        env_index_of(env, key) != -1 ==> {
            &&& 0 <= env_index_of(env, key) < env.len()
            &&& env[env_index_of(env, key)].0 == key
            &&& forall|i: int| 0 <= i < env_index_of(env, key) ==> env[i].0 != key
        },
    decreases env.len(),
{
    if env.len() == 0 {
    } else if env[0].0 == key {
    } else {
        let rest = env.drop_first();
        lemma_env_index_of(rest, key);
        if env_index_of(rest, key) == -1 {
            assert forall|i: int| 0 <= i < env.len() implies env[i].0 != key by {
                if i > 0 {
                    assert(env[i] == rest[i - 1]);
                }
            }
        } else {
            assert(env[env_index_of(env, key)] == rest[env_index_of(rest, key)]);
            assert forall|i: int| 0 <= i < env_index_of(env, key) implies env[i].0 != key by {
                if i > 0 {
                    assert(env[i] == rest[i - 1]);
                }
            }
        }
    }
}

/// The environment after binding `key` to `value`: the first existing pair
/// with that key is replaced, or the pair is appended if the key is new.
pub open spec fn env_set_spec(
    env: Seq<(Seq<char>, Seq<char>)>,
    key: Seq<char>,
    value: Seq<char>,
) -> Seq<(Seq<char>, Seq<char>)> {
    let i = env_index_of(env, key);
    if i == -1 {
        env.push((key, value))
    } else {
        env.update(i, (key, value))
    }
}

/// Binds `key` to `value` in an environment, replacing the first existing
/// binding of that key or appending a new pair.
pub fn env_set(env: &mut Vec<(String, String)>, key: String, value: String)
    ensures
        final (env).deep_view() == env_set_spec(old(env).deep_view(), key@, value@),
{
    let ghost ev = env.deep_view();
    let ghost kv = key@;
    let ghost vv = value@;
    let n = env.len();
    let mut i: usize = 0;
    while i < n
        invariant
            ev == env.deep_view(),
            ev == old(env).deep_view(),
            kv == key@,
            vv == value@,
            ev.len() == n,
            n == env.len(),
            i <= n,
            forall|j: int| 0 <= j < i ==> ev[j].0 != key@,
        decreases n - i,
    {
        if crate::text::str_eq(env[i].0.as_str(), key.as_str()) {
            proof {
                lemma_env_index_of(ev, key@);
                let f = env_index_of(ev, key@);
                assert(ev[i as int].0 == key@);
                if f == -1 {
                    assert(ev[i as int].0 != key@);
                }
                if f < i {
                    assert(ev[f].0 != key@);
                }
                if f > i {
                    assert(ev[i as int].0 != key@);
                }
            }
            let _replaced = env.remove(i);
            env.insert(i, (key, value));
            proof {
                assert(env_index_of(ev, kv) == i);
                assert(env.deep_view() =~= env_set_spec(ev, kv, vv));
            }
            return ;
        }
        i += 1;
    }
    proof {
        lemma_env_index_of(ev, key@);
        if env_index_of(ev, key@) != -1 {
            assert(ev[env_index_of(ev, key@)].0 == key@);
        }
    }
    env.push((key, value));
    proof {
        assert(env.deep_view() =~= env_set_spec(ev, kv, vv));
    }
}

} // verus!
