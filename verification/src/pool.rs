//! The process pool: a registry of long-lived worker processes keyed by
//! worker name, each entry carrying the fingerprint of the startup
//! description it was spawned from, its process id and its bound port.
//!
//! Spawning, liveness polling and killing are the caller's outside work,
//! serialized under one pool-wide lock. A connect is driven as: look the
//! name up, poll the registered process if there is one, hand the observed
//! status to [`NailgunPool::connect`], and act on the returned step —
//! reuse the port, or kill the evicted entry's process, spawn a new worker,
//! read its handshake and [`NailgunPool::register`] it. The pool itself is
//! a verified state machine over that protocol: its view is the map from
//! worker names to entries, and every operation says exactly how it moves
//! that map.

use vstd::prelude::*;
use crate::text::str_eq;

verus! {

/// A worker name: the key under which a pooled process is registered.
pub type NailgunProcessName = String;

/// One registered worker: its pool key, the fingerprint of the startup
/// description it was spawned from, and the process id and port of the live
/// process. The process handle itself stays with the caller, filed under
/// the process id.
#[derive(Debug)]
pub struct NailgunProcessMetadata {
    /// The worker name the entry is registered under.
    pub name: NailgunProcessName,
    /// The fingerprint of the startup description the worker was spawned
    /// from.
    pub fingerprint: u64,
    /// The operating-system process id of the worker.
    pub pid: usize,
    /// The port the worker announced in its handshake.
    pub port: usize,
}

/// What the caller observed of a registered worker process just before
/// connecting: still running, or already exited.
#[derive(Clone, Copy, Debug, PartialEq, Eq, Structural)]
pub enum ProcessStatus {
    /// The process had not exited when polled.
    Running,
    /// The process had exited when polled.
    Exited,
}

/// What a connect asks the caller to do next.
#[derive(Debug)]
pub enum ConnectStep {
    /// A live worker with the requested fingerprint is registered: connect
    /// to this port; nothing is spawned.
    Reuse(usize),
    /// No worker is registered under the name: spawn one and register it.
    StartFresh,
    /// The registered worker is dead, stale or unobserved: it has been
    /// removed from the pool and is handed out here so its process is
    /// killed exactly once; spawn a replacement and register it.
    Restart(NailgunProcessMetadata),
}

/// No two entries share a worker name.
pub open spec fn entries_unique(s: Seq<NailgunProcessMetadata>) -> bool {
    forall|i: int, j: int| 0 <= i < j < s.len() ==> s[i].name@ != s[j].name@
}

/// The registry a sequence of entries stands for: the map from worker name
/// to entry.
pub open spec fn map_of(s: Seq<NailgunProcessMetadata>) -> Map<
    Seq<char>,
    NailgunProcessMetadata,
>
    decreases s.len(),
{
    if s.len() == 0 {
        Map::empty()
    } else {
        map_of(s.drop_last()).insert(s.last().name@, s.last())
    }
}

/// What `map_of` holds for a duplicate-free sequence: a name is in the map
/// exactly when an entry carries it, and each entry is filed under its own
/// name.
pub proof fn lemma_map_of(s: Seq<NailgunProcessMetadata>)
    requires
        entries_unique(s),
    ensures
        forall|n: Seq<char>| #[trigger]
            map_of(s).dom().contains(n) <==> exists|i: int|
                0 <= i < s.len() && s[i].name@ == n,
        forall|i: int|
            0 <= i < s.len() ==> map_of(s).dom().contains(#[trigger] s[i].name@) && map_of(
                s,
            )[s[i].name@] == s[i],
    decreases s.len(),
{
    if s.len() > 0 {
        let t = s.drop_last();
        let e = s.last();
        assert(entries_unique(t)) by {
            assert forall|a: int, b: int| 0 <= a < b < t.len() implies t[a].name@
                != t[b].name@ by {
                assert(t[a] == s[a]);
                assert(t[b] == s[b]);
            }
        }
        lemma_map_of(t);
        assert(map_of(s) == map_of(t).insert(e.name@, e));
        assert forall|n: Seq<char>| #[trigger] map_of(s).dom().contains(n) implies exists|i: int|
            0 <= i < s.len() && s[i].name@ == n by {
            if n == e.name@ {
                assert(s[s.len() - 1].name@ == n);
            } else {
                assert(map_of(t).dom().contains(n));
                let i = choose|i: int| 0 <= i < t.len() && t[i].name@ == n;
                assert(s[i] == t[i]);
            }
        }
        assert forall|n: Seq<char>|
            (exists|i: int| 0 <= i < s.len() && s[i].name@ == n) implies #[trigger] map_of(
            s,
        ).dom().contains(n) by {
            let i = choose|i: int| 0 <= i < s.len() && s[i].name@ == n;
            if i < s.len() - 1 {
                assert(t[i] == s[i]);
                assert(t[i].name@ == n);
            }
        }
        assert forall|i: int| 0 <= i < s.len() implies map_of(s).dom().contains(
            #[trigger] s[i].name@,
        ) && map_of(s)[s[i].name@] == s[i] by {
            if i < s.len() - 1 {
                assert(t[i] == s[i]);
                assert(s[i].name@ != e.name@);
            }
        }
    }
}

/// Removing one entry removes exactly its name from the registry.
proof fn lemma_map_of_remove(s: Seq<NailgunProcessMetadata>, i: int)
    requires
        entries_unique(s),
        0 <= i < s.len(),
    ensures
        entries_unique(s.remove(i)),
        map_of(s.remove(i)) == map_of(s).remove(s[i].name@),
{
    let t = s.remove(i);
    assert forall|a: int, b: int| 0 <= a < b < t.len() implies t[a].name@ != t[b].name@ by {
        let a2: int = if a < i {
            a
        } else {
            a + 1
        };
        let b2: int = if b < i {
            b
        } else {
            b + 1
        };
        assert(t[a] == s[a2]);
        assert(t[b] == s[b2]);
    }
    lemma_map_of(s);
    lemma_map_of(t);
    let goal = map_of(s).remove(s[i].name@);
    assert forall|n: Seq<char>| #[trigger] map_of(t).dom().contains(n) implies goal.dom().contains(
        n,
    ) && map_of(t)[n] == goal[n] by {
        let j = choose|j: int| 0 <= j < t.len() && t[j].name@ == n;
        let k: int = if j < i {
            j
        } else {
            j + 1
        };
        assert(t[j] == s[k]);
        assert(s[k].name@ == n);
        assert(n != s[i].name@);
        assert(map_of(t)[n] == t[j]);
        assert(map_of(s)[n] == s[k]);
    }
    assert forall|n: Seq<char>| #[trigger] goal.dom().contains(n) implies map_of(
        t,
    ).dom().contains(n) by {
        let k = choose|k: int| 0 <= k < s.len() && s[k].name@ == n;
        assert(k != i);
        let j: int = if k < i {
            k
        } else {
            k - 1
        };
        assert(t[j] == s[k]);
        assert(t[j].name@ == n);
    }
    assert(map_of(t) =~= goal);
}

/// Appending an entry with a fresh name files it under that name and
/// changes nothing else.
proof fn lemma_map_of_push(s: Seq<NailgunProcessMetadata>, e: NailgunProcessMetadata)
    requires
        entries_unique(s),
        forall|i: int| 0 <= i < s.len() ==> s[i].name@ != e.name@,
    ensures
        entries_unique(s.push(e)),
        map_of(s.push(e)) == map_of(s).insert(e.name@, e),
{
    let u = s.push(e);
    assert forall|a: int, b: int| 0 <= a < b < u.len() implies u[a].name@ != u[b].name@ by {
        assert(u[a] == s[a]);
        if b < u.len() - 1 {
            assert(u[b] == s[b]);
        }
    }
    assert(u.drop_last() =~= s);
    assert(u.last() == e);
}

/// How one connect moves the registry, as a function of what the caller
/// observed: a missing name asks for a fresh start; a live entry with the
/// requested fingerprint is reused as it stands; anything else — an exited
/// process, a fingerprint mismatch, or a process that could not be
/// observed — is evicted and handed out for teardown and restart.
pub open spec fn connect_transition(
    m: Map<Seq<char>, NailgunProcessMetadata>,
    name: Seq<char>,
    fingerprint: u64,
    status: Option<ProcessStatus>,
) -> (Map<Seq<char>, NailgunProcessMetadata>, ConnectStep) {
    if !m.dom().contains(name) {
        (m, ConnectStep::StartFresh)
    } else if status == Some(ProcessStatus::Running) && m[name].fingerprint == fingerprint {
        (m, ConnectStep::Reuse(m[name].port))
    } else {
        (m.remove(name), ConnectStep::Restart(m[name]))
    }
}

/// The pool: a name-keyed registry of worker entries. Its view is the map
/// from worker names to entries, so at most one entry ever exists per name.
pub struct NailgunPool {
    entries: Vec<NailgunProcessMetadata>,
}

impl View for NailgunPool {
    type V = Map<Seq<char>, NailgunProcessMetadata>;

    closed spec fn view(&self) -> Map<Seq<char>, NailgunProcessMetadata> {
        map_of(self.entries@)
    }
}

impl NailgunPool {
    /// No two entries share a name. Holds of every pool the library hands
    /// out, and every operation keeps it.
    pub closed spec fn wf(&self) -> bool {
        entries_unique(self.entries@)
    }

    /// An empty pool.
    pub fn new() -> (p: Self)
        ensures
            p@ == Map::<Seq<char>, NailgunProcessMetadata>::empty(),
            p.wf(),
    {
        NailgunPool { entries: Vec::new() }
    }

    /// The index of the entry registered under `name`, if any.
    fn find_index(&self, name: &str) -> (r: Option<usize>)
        requires
            self.wf(),
        ensures
            match r {
                Some(i) => {
                    &&& i < self.entries@.len()
                    &&& self.entries@[i as int].name@ == name@
                    &&& self@.dom().contains(name@)
                    &&& self@[name@] == self.entries@[i as int]
                },
                None => !self@.dom().contains(name@),
            },
    {
        proof {
            lemma_map_of(self.entries@);
        }
        let n = self.entries.len();
        let mut i: usize = 0;
        while i < n
            invariant
                self.wf(),
                n == self.entries@.len(),
                i <= n,
                forall|j: int| 0 <= j < i ==> self.entries@[j].name@ != name@,
            decreases n - i,
        {
            if str_eq(self.entries[i].name.as_str(), name) {
                proof {
                    lemma_map_of(self.entries@);
                }
                return Some(i);
            }
            i += 1;
        }
        None
    }

    /// The entry registered under `name`, if any.
    pub fn get(&self, name: &NailgunProcessName) -> (r: Option<&NailgunProcessMetadata>)
        requires
            self.wf(),
        ensures
            match r {
                Some(e) => self@.dom().contains(name@) && *e == self@[name@],
                None => !self@.dom().contains(name@),
            },
    {
        match self.find_index(name.as_str()) {
            Some(i) => Some(&self.entries[i]),
            None => None,
        }
    }

    /// Decides one connect for `name` with the requested `fingerprint`,
    /// given what the caller observed of the registered process: `None`
    /// when `get` found no entry, otherwise the polled status. Returns the
    /// step the caller must take; a returned [`ConnectStep::Restart`]
    /// carries the evicted entry, which has already left the registry.
    pub fn connect(
        &mut self,
        name: &NailgunProcessName,
        fingerprint: u64,
        status: Option<ProcessStatus>,
    ) -> (step: ConnectStep)
        requires
            old(self).wf(),
        ensures
            final (self).wf(),
            final (self)@ == connect_transition(old(self)@, name@, fingerprint, status).0,
            step == connect_transition(old(self)@, name@, fingerprint, status).1,
    {
        match self.find_index(name.as_str()) {
            None => ConnectStep::StartFresh,
            Some(i) => {
                let running = matches!(status, Some(ProcessStatus::Running));
                if running && self.entries[i].fingerprint == fingerprint {
                    ConnectStep::Reuse(self.entries[i].port)
                } else {
                    proof {
                        lemma_map_of_remove(self.entries@, i as int);
                    }
                    let e = self.entries.remove(i);
                    ConnectStep::Restart(e)
                }
            },
        }
    }

    /// Registers a freshly started worker, replacing (and handing back) any
    /// entry previously registered under the same name.
    pub fn register(&mut self, entry: NailgunProcessMetadata) -> (replaced: Option<
        NailgunProcessMetadata,
    >)
        requires
            old(self).wf(),
        ensures
            final (self).wf(),
            final (self)@ == old(self)@.insert(entry.name@, entry),
            match replaced {
                Some(e) => old(self)@.dom().contains(entry.name@) && e == old(self)@[entry.name@],
                None => !old(self)@.dom().contains(entry.name@),
            },
    {
        let ghost em = entry;
        let ghost s0 = self.entries@;
        match self.find_index(entry.name.as_str()) {
            Some(i) => {
                proof {
                    lemma_map_of_remove(s0, i as int);
                }
                let old_e = self.entries.remove(i);
                proof {
                    lemma_map_of(s0);
                    assert forall|j: int|
                        0 <= j < self.entries@.len() implies self.entries@[j].name@
                        != em.name@ by {
                        let k: int = if j < i {
                            j
                        } else {
                            j + 1
                        };
                        assert(self.entries@[j] == s0[k]);
                        if s0[k].name@ == em.name@ {
                            assert(s0[k].name@ == s0[i as int].name@);
                        }
                    }
                    lemma_map_of_push(self.entries@, em);
                }
                self.entries.push(entry);
                proof {
                    assert(map_of(self.entries@) =~= map_of(s0).insert(em.name@, em));
                }
                Some(old_e)
            },
            None => {
                proof {
                    lemma_map_of(s0);
                    assert forall|j: int| 0 <= j < s0.len() implies s0[j].name@ != em.name@ by {
                        if s0[j].name@ == em.name@ {
                            assert(map_of(s0).dom().contains(em.name@));
                        }
                    }
                    lemma_map_of_push(s0, em);
                }
                self.entries.push(entry);
                None
            },
        }
    }

    /// Empties the pool, handing every registered entry out exactly once so
    /// that the caller can kill each worker process.
    pub fn teardown(&mut self) -> (evicted: Vec<NailgunProcessMetadata>)
        requires
            old(self).wf(),
        ensures
            final (self).wf(),
            final (self)@ == Map::<Seq<char>, NailgunProcessMetadata>::empty(),
            entries_unique(evicted@),
            map_of(evicted@) == old(self)@,
    {
        let mut out: Vec<NailgunProcessMetadata> = Vec::new();
        std::mem::swap(&mut self.entries, &mut out);
        out
    }
}

/// The registry after `k` successive connects for one name and
/// fingerprint, each observing the registered worker alive.
pub open spec fn repeated_connect(
    m: Map<Seq<char>, NailgunProcessMetadata>,
    name: Seq<char>,
    fingerprint: u64,
    k: nat,
) -> Map<Seq<char>, NailgunProcessMetadata>
    decreases k,
{
    if k == 0 {
        m
    } else {
        connect_transition(
            repeated_connect(m, name, fingerprint, (k - 1) as nat),
            name,
            fingerprint,
            Some(ProcessStatus::Running),
        ).0
    }
}

/// Idempotent reuse: as long as a worker registered under `name` with the
/// requested fingerprint stays alive, any sequence of connects leaves the
/// registry exactly as it was, and every one of them is answered with the
/// same port and no spawn.
pub proof fn lemma_idempotent_reuse(
    m: Map<Seq<char>, NailgunProcessMetadata>,
    name: Seq<char>,
    fingerprint: u64,
    k: nat,
)
    requires
        m.dom().contains(name),
        m[name].fingerprint == fingerprint,
    ensures
        repeated_connect(m, name, fingerprint, k) == m,
        connect_transition(m, name, fingerprint, Some(ProcessStatus::Running)).1
            == ConnectStep::Reuse(m[name].port),
    decreases k,
{
    if k > 0 {
        lemma_idempotent_reuse(m, name, fingerprint, (k - 1) as nat);
    }
}

/// One spawn under contention: connects are serialized by the pool-wide
/// lock, so of any number of connects for the same name and fingerprint,
/// only the first finds the name unregistered and is told to spawn; once
/// its worker is registered, every later connect that finds the worker
/// alive is answered with the same port and no further spawn.
pub proof fn lemma_single_spawn_under_contention(
    m: Map<Seq<char>, NailgunProcessMetadata>,
    e: NailgunProcessMetadata,
    fingerprint: u64,
)
    requires
        !m.dom().contains(e.name@),
        e.fingerprint == fingerprint,
    ensures
        connect_transition(m, e.name@, fingerprint, None).0 == m,
        connect_transition(m, e.name@, fingerprint, None).1 == ConnectStep::StartFresh,
        ({
            let m1 = m.insert(e.name@, e);
            &&& connect_transition(m1, e.name@, fingerprint, Some(ProcessStatus::Running)).0 == m1
            &&& connect_transition(m1, e.name@, fingerprint, Some(ProcessStatus::Running)).1
                == ConnectStep::Reuse(e.port)
        }),
{
}

/// Invalidation on drift: a connect whose fingerprint differs from the
/// registered worker's evicts that worker — handing it out to be killed —
/// and after the replacement is spawned and registered, the next connect
/// returns the replacement's port, not the old one.
pub proof fn lemma_invalidation_on_drift(
    m: Map<Seq<char>, NailgunProcessMetadata>,
    name: Seq<char>,
    new_fingerprint: u64,
    replacement: NailgunProcessMetadata,
)
    requires
        m.dom().contains(name),
        m[name].fingerprint != new_fingerprint,
        replacement.name@ == name,
        replacement.fingerprint == new_fingerprint,
    ensures
        connect_transition(m, name, new_fingerprint, Some(ProcessStatus::Running)).1
            == ConnectStep::Restart(m[name]),
        !connect_transition(m, name, new_fingerprint, Some(ProcessStatus::Running)).0
            .dom().contains(name),
        ({
            let m2 = connect_transition(m, name, new_fingerprint, Some(ProcessStatus::Running)).0
                .insert(name, replacement);
            connect_transition(m2, name, new_fingerprint, Some(ProcessStatus::Running)).1
                == ConnectStep::Reuse(replacement.port)
        }),
{
}

/// Dead-process restart: when the registered worker has exited, a connect
/// never answers with the stale entry's port; it evicts the entry and asks
/// for a restart, whatever the fingerprint.
pub proof fn lemma_dead_process_restart(
    m: Map<Seq<char>, NailgunProcessMetadata>,
    name: Seq<char>,
    fingerprint: u64,
)
    requires
        m.dom().contains(name),
    ensures
        connect_transition(m, name, fingerprint, Some(ProcessStatus::Exited)).1
            == ConnectStep::Restart(m[name]),
        !(connect_transition(m, name, fingerprint, Some(ProcessStatus::Exited)).1 is Reuse),
        !connect_transition(m, name, fingerprint, Some(ProcessStatus::Exited)).0
            .dom().contains(name),
{
}

/// Eviction is final: whenever a connect hands an entry out for teardown,
/// that entry has left the registry in the same step, so no later
/// operation can hand the same registered entry out again — its process is
/// killed exactly once.
pub proof fn lemma_eviction_is_final(
    m: Map<Seq<char>, NailgunProcessMetadata>,
    name: Seq<char>,
    fingerprint: u64,
    status: Option<ProcessStatus>,
)
    requires
        connect_transition(m, name, fingerprint, status).1 is Restart,
    ensures
        connect_transition(m, name, fingerprint, status).1->Restart_0 == m[name],
        !connect_transition(m, name, fingerprint, status).0.dom().contains(name),
{
}

} // verus!
