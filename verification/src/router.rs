//! The command router: decides how a generic execution request is run. A
//! request not marked poolable is handed to the plain backend unchanged.
//! A poolable request's command line is split into a server half and a
//! client half; the server half becomes the startup description of a
//! shared worker, named after the main class and the description's
//! fingerprint; and the client invocation is rewritten to a thin launcher
//! pointed at the live worker's port.
//!
//! The router's decisions are all here and verified. The caller performs
//! the outside work between them: materializing input files into the
//! worker's directory, placing the `.jdk` symlink, spawning, and running
//! the rewritten request on the plain backend.

use vstd::prelude::*;
use vstd::string::StrSliceExecFns;
use vstd::string::StringExecFns;
use crate::args::{split_args, split_args_spec, ArgSplitError};
use crate::args::lemma_first_cp_flag;
use crate::pool::NailgunPool;
use crate::request::{ExecuteProcessRequest, RequestModel, Platform, Digest, env_set, env_set_spec};
use crate::fingerprint::{fingerprint_of_request, fingerprint_spec};
use crate::text::{u64_to_decimal_string, decimal_chars};

verus! {

/// The startup description a worker is launched from: the server half of
/// the split command line, followed by the worker main class and the
/// argument telling it to pick a free port; inputs and JDK carried over
/// from the client request.
pub open spec fn nailgun_request_model(
    args: Seq<Seq<char>>,
    input_files: Digest,
    jdk_home: Option<Seq<char>>,
) -> RequestModel {
    RequestModel {
        argv: args.push("com.martiansoftware.nailgun.NGServer"@).push(":0"@),
        env: Seq::empty(),
        input_files: input_files,
        output_files: Seq::empty(),
        output_directories: Seq::empty(),
        timeout_seconds: 1000,
        description: "ExecuteProcessRequest to start a nailgun"@,
        jdk_home: jdk_home,
        target_platform: Platform::Darwin,
        is_nailgunnable: true,
    }
}

/// Builds the startup request for a shared worker from the server half of
/// a split command line.
pub fn get_nailgun_request(
    args: Vec<String>,
    input_files: Digest,
    jdk_home: Option<String>,
) -> (r: ExecuteProcessRequest)
    ensures
        r@ == nailgun_request_model(args.deep_view(), input_files, jdk_home.deep_view()),
{
    let ghost av = args.deep_view();
    let ghost jv = jdk_home.deep_view();
    let mut full_args = args;
    full_args.push("com.martiansoftware.nailgun.NGServer".to_owned());
    full_args.push(":0".to_owned());
    proof {
        assert(full_args.deep_view() =~= av.push("com.martiansoftware.nailgun.NGServer"@).push(
            ":0"@,
        ));
    }
    let r = ExecuteProcessRequest {
        argv: full_args,
        env: Vec::new(),
        input_files: input_files,
        output_files: Vec::new(),
        output_directories: Vec::new(),
        timeout_seconds: 1000,
        description: "ExecuteProcessRequest to start a nailgun".to_owned(),
        jdk_home: jdk_home,
        target_platform: Platform::Darwin,
        is_nailgunnable: true,
    };
    proof {
        assert(r@.env =~= Seq::<(Seq<char>, Seq<char>)>::empty());
        assert(r@.output_files =~= Seq::<Seq<char>>::empty());
        assert(r@.output_directories =~= Seq::<Seq<char>>::empty());
    }
    r
}

/// The pool key of a worker: the main class it serves, then the
/// fingerprint of its startup description, so that distinct configurations
/// of one main class occupy distinct pool slots.
pub fn nailgun_name(main_class: &String, fingerprint: u64) -> (r: String)
    ensures
        r@ == main_class@ + "_"@ + decimal_chars(fingerprint as nat),
{
    let mut name = main_class.clone();
    name.append("_");
    let digits = u64_to_decimal_string(fingerprint);
    name.append(digits.as_str());
    name
}

/// What the router decided for one request.
pub enum RunPlan {
    /// The request is not poolable: run it on the plain backend unchanged.
    Direct,
    /// The request is routed through the pool.
    Pooled(PooledPlan),
}

/// Everything a pooled run needs: the worker's startup description and
/// pool key, the per-worker working directory, and the client half of the
/// command line.
pub struct PooledPlan {
    /// The startup description of the shared worker.
    pub nailgun_req: ExecuteProcessRequest,
    /// The main class and everything after it.
    pub client_args: Vec<String>,
    /// The pool key the worker is registered under.
    pub nailgun_name: String,
    /// The worker's working directory.
    pub workdir: String,
    /// The fingerprint of the worker's startup description.
    pub fingerprint: u64,
}

/// The command router. It owns the pool of shared workers; the plain
/// process-execution backend stays with the caller.
pub struct NailgunCommandRunner {
    /// The pool of shared workers.
    pub nailguns: NailgunPool,
    /// The directory under which each worker gets its working directory.
    pub workdir_base: String,
    /// The bootstrap jar prepended to every worker's classpath.
    pub nailgun_jar: String,
    /// The no-op JDK handed to thin clients, which only need the worker's
    /// port, not a real JDK.
    pub mock_jdk_path: String,
}

impl NailgunCommandRunner {
    /// A router with an empty pool.
    pub fn new(workdir_base: String, nailgun_jar: String, mock_jdk_path: String) -> (r: Self)
        ensures
            r.nailguns@ == Map::<Seq<char>, crate::pool::NailgunProcessMetadata>::empty(),
            r.nailguns.wf(),
            r.workdir_base@ == workdir_base@,
            r.nailgun_jar@ == nailgun_jar@,
            r.mock_jdk_path@ == mock_jdk_path@,
    {
        NailgunCommandRunner {
            nailguns: NailgunPool::new(),
            workdir_base: workdir_base,
            nailgun_jar: nailgun_jar,
            mock_jdk_path: mock_jdk_path,
        }
    }

    /// The working directory of the worker named `name`: a directory named
    /// after the pool key, under the router's base directory. The caller
    /// creates it on disk.
    pub fn get_nailguns_workdir(&self, name: &String) -> (r: String)
        ensures
            r@ == self.workdir_base@ + "/"@ + name@,
    {
        let mut w = self.workdir_base.clone();
        w.append("/");
        w.append(name.as_str());
        w
    }

    /// Decides how to run `req`: directly for a non-poolable request, and
    /// through the pool otherwise, with the split command line, the
    /// worker's startup description, fingerprint, pool key and working
    /// directory all pinned down. A poolable request whose command line
    /// cannot be split is rejected with the splitter's error.
    pub fn prepare(&self, req: &ExecuteProcessRequest) -> (r: Result<RunPlan, ArgSplitError>)
        ensures
            !req@.is_nailgunnable ==> r is Ok && r->Ok_0 is Direct,
            req@.is_nailgunnable ==> ({
                let s = split_args_spec(req@.argv, self.nailgun_jar@);
                match s {
                    Err(e) => r == Err::<RunPlan, ArgSplitError>(e),
                    Ok(pair) => {
                        &&& r is Ok
                        &&& r->Ok_0 is Pooled
                        &&& ({
                            let plan = r->Ok_0->Pooled_0;
                            let ngm = nailgun_request_model(
                                pair.0,
                                req@.input_files,
                                req@.jdk_home,
                            );
                            let fp = fingerprint_spec(ngm);
                            &&& plan.nailgun_req@ == ngm
                            &&& plan.client_args.deep_view() == pair.1
                            &&& plan.fingerprint == fp
                            &&& plan.nailgun_name@ == pair.1[0] + "_"@ + decimal_chars(fp as nat)
                            &&& plan.workdir@ == self.workdir_base@ + "/"@ + plan.nailgun_name@
                        })
                    },
                }
            }),
    {
        if !req.is_nailgunnable {
            return Ok(RunPlan::Direct);
        }
        let parsed = match split_args(&req.argv, self.nailgun_jar.as_str()) {
            Ok(p) => p,
            Err(e) => {
                return Err(e);
            },
        };
        let jdk = match &req.jdk_home {
            None => None,
            Some(p) => Some(p.clone()),
        };
        proof {
            assert(jdk.deep_view() == req@.jdk_home);
        }
        let nailgun_req = get_nailgun_request(parsed.nailgun_args, req.input_files, jdk);
        let fingerprint = fingerprint_of_request(&nailgun_req);
        proof {
            lemma_first_cp_flag(req@.argv);
            assert(parsed.client_args.deep_view().len() > 0);
        }
        let main_class = parsed.client_args[0].clone();
        let name = nailgun_name(&main_class, fingerprint);
        let workdir = self.get_nailguns_workdir(&name);
        Ok(
            RunPlan::Pooled(
                PooledPlan {
                    nailgun_req: nailgun_req,
                    client_args: parsed.client_args,
                    nailgun_name: name,
                    workdir: workdir,
                    fingerprint: fingerprint,
                },
            ),
        )
    }

    /// Rewrites the client request to run a thin launcher against the live
    /// worker: the argument vector becomes the launcher plus the client
    /// half of the command line, the worker's port is injected into the
    /// environment, and the JDK reference is pointed at the router's no-op
    /// JDK — only the pooled worker needs a real one.
    pub fn rewrite_client_request(
        &self,
        req: ExecuteProcessRequest,
        client_args: Vec<String>,
        port: usize,
    ) -> (r: ExecuteProcessRequest)
        ensures
            r@.argv == seq![".jdk/bin/java"@] + client_args.deep_view(),
            r@.env == env_set_spec(req@.env, "NAILGUN_PORT"@, decimal_chars(port as nat)),
            r@.jdk_home == Some(self.mock_jdk_path@),
            r@.input_files == req@.input_files,
            r@.output_files == req@.output_files,
            r@.output_directories == req@.output_directories,
            r@.timeout_seconds == req@.timeout_seconds,
            r@.description == req@.description,
            r@.target_platform == req@.target_platform,
            r@.is_nailgunnable == req@.is_nailgunnable,
    {
        let ghost cv = client_args.deep_view();
        let mut argv: Vec<String> = Vec::new();
        argv.push(".jdk/bin/java".to_owned());
        let mut rest = client_args;
        argv.append(&mut rest);
        proof {
            assert(argv.deep_view() =~= seq![".jdk/bin/java"@] + cv);
        }
        let mut rewritten = req;
        rewritten.argv = argv;
        env_set(&mut rewritten.env, "NAILGUN_PORT".to_owned(), u64_to_decimal_string(port as u64));
        rewritten.jdk_home = Some(self.mock_jdk_path.clone());
        rewritten
    }
}

} // verus!
