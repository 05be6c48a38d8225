use nailgun_pool::pool::{ConnectStep, NailgunPool, NailgunProcessMetadata, ProcessStatus};

fn entry(name: &str, fingerprint: u64, pid: usize, port: usize) -> NailgunProcessMetadata {
    NailgunProcessMetadata { name: name.to_string(), fingerprint, pid, port }
}

#[test]
fn empty_pool_asks_for_a_fresh_start() {
    let mut pool = NailgunPool::new();
    assert!(pool.get(&"zinc".to_string()).is_none());
    let step = pool.connect(&"zinc".to_string(), 1, None);
    assert!(matches!(step, ConnectStep::StartFresh));
    assert!(pool.get(&"zinc".to_string()).is_none());
}

#[test]
fn register_files_the_entry_under_its_name() {
    let mut pool = NailgunPool::new();
    assert!(pool.register(entry("zinc", 1, 10, 4000)).is_none());
    let e = pool.get(&"zinc".to_string()).unwrap();
    assert_eq!(e.port, 4000);
    assert_eq!(e.pid, 10);
    assert_eq!(e.fingerprint, 1);
    assert!(pool.get(&"javac".to_string()).is_none());
}

#[test]
fn matching_live_worker_is_reused_every_time() {
    let mut pool = NailgunPool::new();
    pool.register(entry("zinc", 1, 10, 4000));
    for _ in 0..5 {
        let step = pool.connect(&"zinc".to_string(), 1, Some(ProcessStatus::Running));
        assert!(matches!(step, ConnectStep::Reuse(4000)));
    }
    assert_eq!(pool.get(&"zinc".to_string()).unwrap().pid, 10);
}

#[test]
fn fingerprint_drift_evicts_the_old_worker() {
    let mut pool = NailgunPool::new();
    pool.register(entry("zinc", 1, 10, 4000));
    let step = pool.connect(&"zinc".to_string(), 2, Some(ProcessStatus::Running));
    match step {
        ConnectStep::Restart(old) => {
            assert_eq!(old.pid, 10);
            assert_eq!(old.port, 4000);
            assert_eq!(old.fingerprint, 1);
        },
        other => panic!("expected a restart, got {:?}", other),
    }
    // The evicted worker has left the registry before the replacement runs.
    assert!(pool.get(&"zinc".to_string()).is_none());
    pool.register(entry("zinc", 2, 11, 5000));
    let step = pool.connect(&"zinc".to_string(), 2, Some(ProcessStatus::Running));
    assert!(matches!(step, ConnectStep::Reuse(5000)));
}

#[test]
fn exited_worker_is_restarted_not_reused() {
    let mut pool = NailgunPool::new();
    pool.register(entry("zinc", 1, 10, 4000));
    let step = pool.connect(&"zinc".to_string(), 1, Some(ProcessStatus::Exited));
    match step {
        ConnectStep::Restart(old) => assert_eq!(old.pid, 10),
        other => panic!("expected a restart, got {:?}", other),
    }
    assert!(pool.get(&"zinc".to_string()).is_none());
}

#[test]
fn serialized_connects_spawn_once_and_share_the_port() {
    // What N contending callers see once the pool-wide lock has ordered
    // them: the first finds nothing and spawns; everyone after that is
    // answered with the same port and no further spawn.
    let mut pool = NailgunPool::new();
    let name = "zinc".to_string();
    let step = pool.connect(&name, 7, None);
    assert!(matches!(step, ConnectStep::StartFresh));
    pool.register(entry("zinc", 7, 42, 4100));
    let mut spawns = 1;
    let mut ports = Vec::new();
    for _ in 0..8 {
        match pool.connect(&name, 7, Some(ProcessStatus::Running)) {
            ConnectStep::Reuse(port) => ports.push(port),
            _ => spawns += 1,
        }
    }
    assert_eq!(spawns, 1);
    assert!(ports.iter().all(|p| *p == 4100));
}

#[test]
fn register_hands_back_a_replaced_entry() {
    let mut pool = NailgunPool::new();
    pool.register(entry("zinc", 1, 10, 4000));
    let replaced = pool.register(entry("zinc", 2, 11, 5000)).unwrap();
    assert_eq!(replaced.pid, 10);
    assert_eq!(pool.get(&"zinc".to_string()).unwrap().port, 5000);
}

#[test]
fn teardown_hands_every_worker_out_exactly_once() {
    let mut pool = NailgunPool::new();
    pool.register(entry("zinc", 1, 10, 4000));
    pool.register(entry("javac", 2, 11, 4001));
    pool.register(entry("scalac", 3, 12, 4002));
    let mut evicted = pool.teardown();
    assert_eq!(evicted.len(), 3);
    let mut pids: Vec<usize> = evicted.iter().map(|e| e.pid).collect();
    pids.sort();
    assert_eq!(pids, vec![10, 11, 12]);
    let mut names: Vec<String> = evicted.drain(..).map(|e| e.name).collect();
    names.sort();
    assert_eq!(names, vec!["javac".to_string(), "scalac".to_string(), "zinc".to_string()]);
    assert!(pool.get(&"zinc".to_string()).is_none());
    assert!(pool.get(&"javac".to_string()).is_none());
    assert!(pool.get(&"scalac".to_string()).is_none());
}

#[test]
fn distinct_names_hold_distinct_workers() {
    let mut pool = NailgunPool::new();
    pool.register(entry("zinc", 1, 10, 4000));
    pool.register(entry("javac", 2, 11, 4001));
    let step = pool.connect(&"zinc".to_string(), 1, Some(ProcessStatus::Running));
    assert!(matches!(step, ConnectStep::Reuse(4000)));
    let step = pool.connect(&"javac".to_string(), 2, Some(ProcessStatus::Running));
    assert!(matches!(step, ConnectStep::Reuse(4001)));
}

#[test]
fn unobserved_status_for_a_registered_worker_restarts_it() {
    // The protocol polls a registered worker before connecting; a caller
    // that could not observe it gets a conservative restart.
    let mut pool = NailgunPool::new();
    pool.register(entry("zinc", 1, 10, 4000));
    let step = pool.connect(&"zinc".to_string(), 1, None);
    assert!(matches!(step, ConnectStep::Restart(_)));
}
