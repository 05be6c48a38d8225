//! Splitting a client command line into the arguments that boot a shared
//! server and the arguments of the one job to run against it.
//!
//! The split is a single left-to-right scan: everything up to and including
//! the first `-cp`/`-classpath` flag belongs to the server, the token after
//! the flag is the classpath (rewritten to prepend the server's own
//! bootstrap jar), the token after that must be the main class, and it and
//! everything following it belong to the client. A command line without
//! that shape is rejected rather than silently mis-split.

use vstd::prelude::*;
use vstd::string::StrSliceExecFns;
use crate::text::{str_eq, starts_with_char, spec_starts_with_char};

verus! {

/// Whether an argument names a client-side argument file (an `@`-prefixed
/// token in the JVM tool convention).
pub open spec fn spec_is_client_arg(arg: Seq<char>) -> bool {
    arg.len() > 0 && arg[0] == '@'
}

/// Recognizes `@`-prefixed argument-file tokens.
pub fn is_client_arg(arg: &String) -> (r: bool)
    ensures
        r == spec_is_client_arg(arg@),
{
    starts_with_char(arg.as_str(), '@')
}

/// Whether a token is the classpath flag of a JVM command line.
pub open spec fn spec_is_cp_flag(arg: Seq<char>) -> bool {
    arg == "-cp"@ || arg == "-classpath"@
}

/// Recognizes the classpath flag of a JVM command line.
pub fn is_cp_flag(arg: &String) -> (r: bool)
    ensures
        r == spec_is_cp_flag(arg@),
{
    str_eq(arg.as_str(), "-cp") || str_eq(arg.as_str(), "-classpath")
}

/// The index of the first classpath flag in `args`, or `-1` if there is none.
pub open spec fn first_cp_flag(args: Seq<Seq<char>>) -> int
    decreases args.len(),
{
    if args.len() == 0 {
        -1
    } else if spec_is_cp_flag(args[0]) {
        0
    } else if first_cp_flag(args.drop_first()) == -1 {
        -1
    } else {
        first_cp_flag(args.drop_first()) + 1
    }
}

/// `first_cp_flag` finds the first classpath flag: nothing before it is a
/// classpath flag, and `-1` means there is none at all.
pub proof fn lemma_first_cp_flag(args: Seq<Seq<char>>)
    ensures
        first_cp_flag(args) == -1 ==> forall|i: int|
            0 <= i < args.len() ==> !spec_is_cp_flag(args[i]),
        first_cp_flag(args) != -1 ==> {
            &&& 0 <= first_cp_flag(args) < args.len()
            &&& spec_is_cp_flag(args[first_cp_flag(args)])
            &&& forall|i: int| 0 <= i < first_cp_flag(args) ==> !spec_is_cp_flag(args[i])
        },
    decreases args.len(),
{
    if args.len() == 0 {
    } else if spec_is_cp_flag(args[0]) {
    } else {
        let rest = args.drop_first();
        lemma_first_cp_flag(rest);
        if first_cp_flag(rest) == -1 {
            assert forall|i: int| 0 <= i < args.len() implies !spec_is_cp_flag(
                args[i],
            ) by {
                if i > 0 {
                    assert(args[i] == rest[i - 1]);
                }
            }
        } else {
            assert(args[first_cp_flag(args)] == rest[first_cp_flag(rest)]);
            assert forall|i: int| 0 <= i < first_cp_flag(args) implies !spec_is_cp_flag(
                args[i],
            ) by {
                if i > 0 {
                    assert(args[i] == rest[i - 1]);
                }
            }
        }
    }
}

/// The classpath handed to the shared server: its own bootstrap jar
/// prepended to the classpath the client asked for.
pub open spec fn spec_rewritten_classpath(jar: Seq<char>, cp: Seq<char>) -> Seq<char> {
    jar + seq![':'] + cp
}

/// Why a command line could not be split.
#[derive(Clone, Copy, Debug, PartialEq, Eq, Structural)]
pub enum ArgSplitError {
    /// No `-cp`/`-classpath` flag occurs at all.
    MissingClasspathFlag,
    /// The classpath flag is the last token, so no classpath follows it.
    MissingClasspathValue,
    /// Nothing follows the classpath, so there is no main class.
    MissingMainClass,
    /// The token after the classpath starts with `-` instead of naming the
    /// main class.
    FlagAfterClasspath,
}

/// What splitting a well-shaped command line yields: the server half,
/// then the client half.
pub open spec fn split_args_spec(args: Seq<Seq<char>>, jar: Seq<char>) -> Result<
    (Seq<Seq<char>>, Seq<Seq<char>>),
    ArgSplitError,
> {
    let c = first_cp_flag(args);
    if c == -1 {
        Err(ArgSplitError::MissingClasspathFlag)
    } else if c == args.len() - 1 {
        Err(ArgSplitError::MissingClasspathValue)
    } else if c == args.len() - 2 {
        Err(ArgSplitError::MissingMainClass)
    } else if spec_starts_with_char(args[c + 2], '-') {
        Err(ArgSplitError::FlagAfterClasspath)
    } else {
        Ok(
            (
                args.take(c + 1).push(spec_rewritten_classpath(jar, args[c + 1])),
                args.skip(c + 2),
            ),
        )
    }
}

/// The two halves of a split command line.
#[derive(Debug)]
pub struct ParsedArgLists {
    /// Arguments that boot the shared server, classpath already rewritten.
    pub nailgun_args: Vec<String>,
    /// The main class and everything after it.
    pub client_args: Vec<String>,
}

/// Finds the first classpath flag in `args`.
fn find_first_cp(args: &Vec<String>) -> (r: Option<usize>)
    ensures
        match r {
            Some(c) => first_cp_flag(args.deep_view()) == c && c < args.len(),
            None => first_cp_flag(args.deep_view()) == -1,
        },
{
    let ghost av = args.deep_view();
    let n = args.len();
    let mut i: usize = 0;
    while i < n
        invariant
            av == args.deep_view(),
            av.len() == n,
            n == args.len(),
            i <= n,
            forall|j: int| 0 <= j < i ==> !spec_is_cp_flag(av[j]),
        decreases n - i,
    {
        if is_cp_flag(&args[i]) {
            proof {
                lemma_first_cp_flag(av);
                let fc = first_cp_flag(av);
                assert(spec_is_cp_flag(av[i as int]));
                if fc == -1 {
                    assert(!spec_is_cp_flag(av[i as int]));
                }
                if fc < i {
                    assert(!spec_is_cp_flag(av[fc]));
                }
                if fc > i {
                    assert(!spec_is_cp_flag(av[i as int]));
                }
            }
            return Some(i);
        }
        i += 1;
    }
    proof {
        lemma_first_cp_flag(av);
        if first_cp_flag(av) != -1 {
            assert(spec_is_cp_flag(av[first_cp_flag(av)]));
        }
    }
    None
}

/// Splits a command line believed to boot a classpath-based JVM server and
/// then hand off to a main class.
///
/// On success the server half is every token up to and including the
/// classpath flag, followed by the classpath rewritten to prepend
/// `nailgun_jar`; the client half is the main class and everything after
/// it. A command line without a classpath flag, without a classpath value,
/// without a main class, or whose would-be main class starts with `-` is
/// rejected with the matching error.
pub fn split_args(args: &Vec<String>, nailgun_jar: &str) -> (r: Result<
    ParsedArgLists,
    ArgSplitError,
>)
    ensures
        ({
            let s = split_args_spec(args.deep_view(), nailgun_jar@);
            match r {
                Ok(p) => {
                    &&& s is Ok
                    &&& p.nailgun_args.deep_view() == s->Ok_0.0
                    &&& p.client_args.deep_view() == s->Ok_0.1
                },
                Err(e) => s is Err && e == s->Err_0,
            }
        }),
{
    let ghost av = args.deep_view();
    let n = args.len();
    let copt = find_first_cp(args);
    match copt {
        None => Err(ArgSplitError::MissingClasspathFlag),
        Some(c) => {
            if c + 1 == n {
                return Err(ArgSplitError::MissingClasspathValue);
            }
            if c + 2 == n {
                return Err(ArgSplitError::MissingMainClass);
            }
            if starts_with_char(args[c + 2].as_str(), '-') {
                return Err(ArgSplitError::FlagAfterClasspath);
            }
            let mut nailgun_args: Vec<String> = Vec::new();
            let mut i: usize = 0;
            while i <= c
                invariant
                    av == args.deep_view(),
                    av.len() == n,
                    n == args.len(),
                    c < n,
                    i <= c + 1,
                    nailgun_args@.len() == i,
                    forall|k: int| 0 <= k < i ==> nailgun_args@[k]@ == av[k],
                decreases c + 1 - i,
            {
                nailgun_args.push(args[i].clone());
                i += 1;
            }
            let mut cp = nailgun_jar.to_owned();
            cp.append(":");
            cp.append(args[c + 1].as_str());
            proof {
                reveal_strlit(":");
                assert(":"@ =~= seq![':']);
                assert(cp@ =~= spec_rewritten_classpath(nailgun_jar@, av[c + 1]));
            }
            nailgun_args.push(cp);
            let mut client_args: Vec<String> = Vec::new();
            let mut j: usize = c + 2;
            while j < n
                invariant
                    av == args.deep_view(),
                    av.len() == n,
                    n == args.len(),
                    c + 2 <= j <= n,
                    client_args@.len() == j - (c + 2),
                    forall|k: int| 0 <= k < j - (c + 2) ==> client_args@[k]@ == av[k + c + 2],
                decreases n - j,
            {
                client_args.push(args[j].clone());
                j += 1;
            }
            proof {
                assert(nailgun_args.deep_view() =~= av.take(c + 1).push(
                    spec_rewritten_classpath(nailgun_jar@, av[c + 1]),
                ));
                assert(client_args.deep_view() =~= av.skip(c + 2));
            }
            Ok(ParsedArgLists { nailgun_args, client_args })
        },
    }
}

} // verus!
