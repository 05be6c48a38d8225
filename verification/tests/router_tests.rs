use nailgun_pool::args::ArgSplitError;
use nailgun_pool::fingerprint::fingerprint_of_request;
use nailgun_pool::request::{Digest, ExecuteProcessRequest, Platform, env_set};
use nailgun_pool::router::{get_nailgun_request, nailgun_name, NailgunCommandRunner, RunPlan};
use nailgun_pool::text::u64_to_decimal_string;

fn strings(v: &[&str]) -> Vec<String> {
    v.iter().map(|s| s.to_string()).collect()
}

fn client_request(argv: &[&str], nailgunnable: bool) -> ExecuteProcessRequest {
    ExecuteProcessRequest {
        argv: strings(argv),
        env: Vec::new(),
        input_files: Digest { hash: 99, size_bytes: 7 },
        output_files: Vec::new(),
        output_directories: Vec::new(),
        timeout_seconds: 60,
        description: "compile something".to_string(),
        jdk_home: Some("/opt/jdk".to_string()),
        target_platform: Platform::Darwin,
        is_nailgunnable: nailgunnable,
    }
}

fn runner() -> NailgunCommandRunner {
    NailgunCommandRunner::new(
        "/tmp/nailguns".to_string(),
        "/opt/nailgun.jar".to_string(),
        "/opt/mock_jdk".to_string(),
    )
}

#[test]
fn nailgun_request_appends_the_server_main_class() {
    let args = strings(&["-Xmx1g", "-cp", "ng.jar:a.jar"]);
    let digest = Digest { hash: 3, size_bytes: 4 };
    let req = get_nailgun_request(args, digest, Some("/opt/jdk".to_string()));
    assert_eq!(
        req.argv,
        strings(&["-Xmx1g", "-cp", "ng.jar:a.jar", "com.martiansoftware.nailgun.NGServer", ":0"])
    );
    assert!(req.env.is_empty());
    assert_eq!(req.input_files, digest);
    assert_eq!(req.timeout_seconds, 1000);
    assert_eq!(req.jdk_home, Some("/opt/jdk".to_string()));
    assert!(req.is_nailgunnable);
}

#[test]
fn worker_names_carry_main_class_and_fingerprint() {
    let name = nailgun_name(&"com.example.Main".to_string(), 41234);
    assert_eq!(name, "com.example.Main_41234");
}

#[test]
fn non_poolable_requests_run_directly() {
    let req = client_request(&["-cp", "a.jar", "Main"], false);
    let plan = runner().prepare(&req).unwrap();
    assert!(matches!(plan, RunPlan::Direct));
}

#[test]
fn poolable_requests_get_a_pooled_plan() {
    let req = client_request(
        &["-Xmx1g", "-cp", "a.jar:b.jar", "com.example.Main", "--flag", "in.txt"],
        true,
    );
    let plan = match runner().prepare(&req).unwrap() {
        RunPlan::Pooled(p) => p,
        RunPlan::Direct => panic!("expected a pooled plan"),
    };
    assert_eq!(
        plan.nailgun_req.argv,
        strings(&[
            "-Xmx1g",
            "-cp",
            "/opt/nailgun.jar:a.jar:b.jar",
            "com.martiansoftware.nailgun.NGServer",
            ":0",
        ])
    );
    assert_eq!(plan.client_args, strings(&["com.example.Main", "--flag", "in.txt"]));
    assert_eq!(plan.fingerprint, fingerprint_of_request(&plan.nailgun_req));
    let expected_name = format!("com.example.Main_{}", plan.fingerprint);
    assert_eq!(plan.nailgun_name, expected_name);
    assert_eq!(plan.workdir, format!("/tmp/nailguns/{}", expected_name));
}

#[test]
fn poolable_requests_with_a_bad_shape_are_rejected() {
    let req = client_request(&["-Xmx1g", "com.example.Main"], true);
    assert!(matches!(runner().prepare(&req), Err(ArgSplitError::MissingClasspathFlag)));
}

#[test]
fn rewrite_points_the_client_at_the_worker() {
    let req = client_request(
        &["-Xmx1g", "-cp", "a.jar", "com.example.Main", "--flag"],
        true,
    );
    let client_args = strings(&["com.example.Main", "--flag"]);
    let rewritten = runner().rewrite_client_request(req, client_args, 41234);
    assert_eq!(rewritten.argv, strings(&[".jdk/bin/java", "com.example.Main", "--flag"]));
    assert_eq!(
        rewritten.env,
        vec![("NAILGUN_PORT".to_string(), "41234".to_string())]
    );
    assert_eq!(rewritten.jdk_home, Some("/opt/mock_jdk".to_string()));
    assert_eq!(rewritten.timeout_seconds, 60);
    assert_eq!(rewritten.description, "compile something".to_string());
}

#[test]
fn rewrite_replaces_an_existing_port_binding() {
    let mut req = client_request(&["-cp", "a.jar", "Main"], true);
    req.env.push(("NAILGUN_PORT".to_string(), "1.example".to_string()));
    req.env.push(("OTHER".to_string(), "kept".to_string()));
    let rewritten = runner().rewrite_client_request(req, strings(&["Main"]), 7);
    assert_eq!(
        rewritten.env,
        vec![
            ("NAILGUN_PORT".to_string(), "7".to_string()),
            ("OTHER".to_string(), "kept".to_string()),
        ]
    );
}

#[test]
fn env_set_appends_new_keys_and_replaces_old_ones() {
    let mut env: Vec<(String, String)> = Vec::new();
    env_set(&mut env, "A".to_string(), "1".to_string());
    env_set(&mut env, "B".to_string(), "2".to_string());
    env_set(&mut env, "A".to_string(), "3".to_string());
    assert_eq!(
        env,
        vec![("A".to_string(), "3".to_string()), ("B".to_string(), "2".to_string())]
    );
}

#[test]
fn decimal_rendering_matches_the_standard_one() {
    assert_eq!(u64_to_decimal_string(0), "0");
    assert_eq!(u64_to_decimal_string(7), "7");
    assert_eq!(u64_to_decimal_string(41234), "41234");
    assert_eq!(u64_to_decimal_string(u64::MAX), u64::MAX.to_string());
}

#[test]
fn fingerprints_are_deterministic_and_order_sensitive() {
    let a = client_request(&["-cp", "a.jar", "Main"], true);
    let b = client_request(&["-cp", "a.jar", "Main"], true);
    assert_eq!(fingerprint_of_request(&a), fingerprint_of_request(&b));
    let swapped = client_request(&["a.jar", "-cp", "Main"], true);
    assert_ne!(fingerprint_of_request(&a), fingerprint_of_request(&swapped));
    let mut with_env = client_request(&["-cp", "a.jar", "Main"], true);
    with_env.env.push(("K".to_string(), "V".to_string()));
    assert_ne!(fingerprint_of_request(&a), fingerprint_of_request(&with_env));
    let mut other_inputs = client_request(&["-cp", "a.jar", "Main"], true);
    other_inputs.input_files = Digest { hash: 100, size_bytes: 7 };
    assert_ne!(fingerprint_of_request(&a), fingerprint_of_request(&other_inputs));
}
