//! The fingerprint of a startup description: a pure, deterministic,
//! order-sensitive hash over the argument vector, the environment, the
//! content-addressed digest of the declared inputs, the JDK reference and
//! the platform. Two requests that describe the same startup always
//! fingerprint identically; the pool compares fingerprints to decide
//! between reuse and restart.
//!
//! The hash is a Fowler–Noll–Vo fold over the characters, with each
//! sequence preceded by its length so that neighbouring strings cannot
//! blur into one another.

use vstd::prelude::*;
use vstd::string::StrSliceExecFns;
use crate::request::{ExecuteProcessRequest, RequestModel, Platform, Digest};

verus! {

/// The Fowler–Noll–Vo offset basis.
pub const FNV_OFFSET_BASIS: u64 = 0xcbf2_9ce4_8422_2325;

/// The Fowler–Noll–Vo prime.
pub const FNV_PRIME: u64 = 0x100_0000_01b3;

/// One hash step: absorb one 64-bit word.
pub open spec fn fnv_step(h: u64, b: u64) -> u64 {
    (((h ^ b) as nat * FNV_PRIME as nat) % 0x1_0000_0000_0000_0000nat) as u64
}

/// Absorbing a sequence of characters.
pub open spec fn fnv_chars(h: u64, s: Seq<char>) -> u64
    decreases s.len(),
{
    if s.len() == 0 {
        h
    } else {
        fnv_step(fnv_chars(h, s.drop_last()), (s.last() as u32) as u64)
    }
}

/// Absorbing one string: its length, then its characters.
pub open spec fn fnv_string(h: u64, s: Seq<char>) -> u64 {
    fnv_chars(fnv_step(h, s.len() as u64), s)
}

/// Absorbing a list of strings in order.
pub open spec fn fnv_string_list(h: u64, l: Seq<Seq<char>>) -> u64
    decreases l.len(),
{
    if l.len() == 0 {
        h
    } else {
        fnv_string(fnv_string_list(h, l.drop_last()), l.last())
    }
}

/// Absorbing a list of environment pairs in order, key before value.
pub open spec fn fnv_env(h: u64, env: Seq<(Seq<char>, Seq<char>)>) -> u64
    decreases env.len(),
{
    if env.len() == 0 {
        h
    } else {
        fnv_string(fnv_string(fnv_env(h, env.drop_last()), env.last().0), env.last().1)
    }
}

/// The tag a platform contributes to the hash.
pub open spec fn platform_tag(p: Platform) -> u64 {
    match p {
        Platform::Darwin => 1,
        Platform::Linux => 2,
    }
}

/// The tag and payload a JDK reference contributes to the hash.
pub open spec fn fnv_jdk(h: u64, jdk: Option<Seq<char>>) -> u64 {
    match jdk {
        None => fnv_step(h, 0),
        Some(path) => fnv_string(fnv_step(h, 1), path),
    }
}

/// The fingerprint of a startup description: a fold over its argument
/// vector, environment, input digest, JDK reference and platform.
pub open spec fn fingerprint_spec(m: RequestModel) -> u64 {
    fnv_step(
        fnv_jdk(
            fnv_step(
                fnv_step(fnv_env(fnv_string_list(FNV_OFFSET_BASIS, m.argv), m.env), m.input_files.hash),
                m.input_files.size_bytes,
            ),
            m.jdk_home,
        ),
        platform_tag(m.target_platform),
    )
}

/// One executable hash step.
fn fnv_step_x(h: u64, b: u64) -> (r: u64)
    ensures
        r == fnv_step(h, b),
{
    (h ^ b).wrapping_mul(FNV_PRIME)
}

/// Absorbs one string slice: its length, then its characters.
fn fnv_string_x(h: u64, s: &str) -> (r: u64)
    ensures
        r == fnv_string(h, s@),
{
    let n = s.unicode_len();
    let mut acc = fnv_step_x(h, n as u64);
    let ghost h0 = acc;
    let mut i: usize = 0;
    while i < n
        invariant
            n == s@.len(),
            i <= n,
            acc == fnv_chars(h0, s@.take(i as int)),
        decreases n - i,
    {
        let c = s.get_char(i);
        acc = fnv_step_x(acc, (c as u32) as u64);
        proof {
            assert(s@.take(i + 1).drop_last() =~= s@.take(i as int));
            assert(s@.take(i + 1).last() == s@[i as int]);
        }
        i += 1;
    }
    proof {
        assert(s@.take(n as int) =~= s@);
    }
    acc
}

/// Absorbs a list of strings in order.
fn fnv_string_list_x(h: u64, l: &Vec<String>) -> (r: u64)
    ensures
        r == fnv_string_list(h, l.deep_view()),
{
    let ghost lv = l.deep_view();
    let n = l.len();
    let mut acc = h;
    let mut i: usize = 0;
    while i < n
        invariant
            lv == l.deep_view(),
            lv.len() == n,
            n == l.len(),
            i <= n,
            acc == fnv_string_list(h, lv.take(i as int)),
        decreases n - i,
    {
        acc = fnv_string_x(acc, l[i].as_str());
        proof {
            assert(lv.take(i + 1).drop_last() =~= lv.take(i as int));
            assert(lv.take(i + 1).last() == lv[i as int]);
        }
        i += 1;
    }
    proof {
        assert(lv.take(n as int) =~= lv);
    }
    acc
}

/// Absorbs the environment pairs in order.
fn fnv_env_x(h: u64, env: &Vec<(String, String)>) -> (r: u64)
    ensures
        r == fnv_env(h, env.deep_view()),
{
    let ghost ev = env.deep_view();
    let n = env.len();
    let mut acc = h;
    let mut i: usize = 0;
    while i < n
        invariant
            ev == env.deep_view(),
            ev.len() == n,
            n == env.len(),
            i <= n,
            acc == fnv_env(h, ev.take(i as int)),
        decreases n - i,
    {
        acc = fnv_string_x(acc, env[i].0.as_str());
        acc = fnv_string_x(acc, env[i].1.as_str());
        proof {
            assert(ev.take(i + 1).drop_last() =~= ev.take(i as int));
            assert(ev.take(i + 1).last() == ev[i as int]);
        }
        i += 1;
    }
    proof {
        assert(ev.take(n as int) =~= ev);
    }
    acc
}

/// Fingerprints a startup description.
pub fn fingerprint_of_request(req: &ExecuteProcessRequest) -> (r: u64)
    ensures
        r == fingerprint_spec(req@),
{
    let mut h = fnv_string_list_x(FNV_OFFSET_BASIS, &req.argv);
    h = fnv_env_x(h, &req.env);
    h = fnv_step_x(h, req.input_files.hash);
    h = fnv_step_x(h, req.input_files.size_bytes);
    h = match &req.jdk_home {
        None => fnv_step_x(h, 0),
        Some(path) => fnv_string_x(fnv_step_x(h, 1), path.as_str()),
    };
    let tag: u64 = match req.target_platform {
        Platform::Darwin => 1,
        Platform::Linux => 2,
    };
    fnv_step_x(h, tag)
}

} // verus!
