//! The worker supervisor's rules: the command line a worker is started
//! with, what happens after a worker exits (stop, give up, or respawn
//! after a backoff), and which workers a dissolving startup takes down.
//! Processes, signals and sleeps are the server's part.

use vstd::prelude::*;
use crate::text::str_eq;

verus! {

/// Backoff before the first, second and third respawn, in milliseconds.
pub const DEFAULT_BACKOFF_MS: [u64; 3] = [1000, 5000, 30000];

/// Grace between SIGTERM and SIGKILL when a startup is dissolved.
pub const DISSOLVE_GRACE_MS: u64 = 5000;

/// What a worker is started with.
#[derive(Debug)]
pub struct SpawnConfig {
    pub agent_id: String,
    pub startup_id: String,
    pub world_url: String,
    pub secret: String,
    pub workspace: String,
    pub backend: String,
}

impl Clone for SpawnConfig {
    fn clone(&self) -> (r: Self)
        ensures
            r == *self,
    {
        SpawnConfig {
            agent_id: self.agent_id.clone(),
            startup_id: self.startup_id.clone(),
            world_url: self.world_url.clone(),
            secret: self.secret.clone(),
            workspace: self.workspace.clone(),
            backend: self.backend.clone(),
        }
    }
}

/// How workers are started and restarted.
#[derive(Debug)]
pub struct SupervisorConfig {
    /// The worker program.
    pub worker_bin: String,
    /// Arguments placed before the per-agent flags.
    pub worker_args: Vec<String>,
    pub backoff_ms: Vec<u64>,
    pub dissolve_grace_ms: u64,
}

impl SupervisorConfig {
    /// The configuration for worker program `bin`: the bundled worker script
    /// as its argument when the program is `node`, the default backoff and
    /// grace.
    pub fn with_worker_bin(bin: String) -> (c: Self)
        ensures
            c.worker_bin@ == bin@,
            bin@ == "node"@ ==> c.worker_args@.map_values(|a: String| a@) == seq![
                "packages/worker/dist/index.js"@,
            ],
            bin@ != "node"@ ==> c.worker_args@.len() == 0,
            c.backoff_ms@ == seq![1000u64, 5000u64, 30000u64],
            c.dissolve_grace_ms == DISSOLVE_GRACE_MS,
    {
        let mut args: Vec<String> = Vec::new();
        if str_eq(bin.as_str(), "node") {
            args.push("packages/worker/dist/index.js".to_owned());
            assert(args@.map_values(|a: String| a@) =~= seq!["packages/worker/dist/index.js"@]);
        }
        let mut backoff: Vec<u64> = Vec::new();
        backoff.push(1000);
        backoff.push(5000);
        backoff.push(30000);
        assert(backoff@ =~= seq![1000u64, 5000u64, 30000u64]);
        SupervisorConfig {
            worker_bin: bin,
            worker_args: args,
            backoff_ms: backoff,
            dissolve_grace_ms: DISSOLVE_GRACE_MS,
        }
    }
}

pub open spec fn strings_view(v: Seq<String>) -> Seq<Seq<char>> {
    v.map_values(|s: String| s@)
}

pub open spec fn agent_flags(cfg: SpawnConfig) -> Seq<Seq<char>> {
    seq![
        "--world-url"@, cfg.world_url@,
        "--agent-id"@, cfg.agent_id@,
        "--startup-id"@, cfg.startup_id@,
        "--secret"@, cfg.secret@,
        "--workspace"@, cfg.workspace@,
        "--backend"@, cfg.backend@,
    ]
}

fn push_str(v: &mut Vec<String>, s: &str)
    ensures
        strings_view(final(v)@) == strings_view(old(v)@).push(s@),
{
    let ghost before = strings_view(v@);
    v.push(s.to_owned());
    assert(strings_view(v@) =~= before.push(s@));
}

/// The arguments of a worker process: the configured leading arguments,
/// then the agent's flags in a fixed order.
pub fn worker_command_args(config: &SupervisorConfig, cfg: &SpawnConfig) -> (args: Vec<String>)
    ensures
        strings_view(args@) == strings_view(config.worker_args@) + agent_flags(*cfg),
{
    let mut args: Vec<String> = Vec::new();
    let mut i: usize = 0;
    while i < config.worker_args.len()
        invariant
            0 <= i <= config.worker_args@.len(),
            strings_view(args@) == strings_view(config.worker_args@.take(i as int)),
        decreases config.worker_args.len() - i,
    {
        push_str(&mut args, config.worker_args[i].as_str());
        proof {
            assert(config.worker_args@.take(i as int + 1) =~= config.worker_args@.take(i as int).push(
                config.worker_args@[i as int],
            ));
            assert(strings_view(config.worker_args@.take(i as int + 1)) =~= strings_view(
                config.worker_args@.take(i as int),
            ).push(config.worker_args@[i as int]@));
        }
        i += 1;
    }
    proof {
        assert(config.worker_args@.take(config.worker_args@.len() as int) =~= config.worker_args@);
    }
    let ghost lead = strings_view(args@);
    push_str(&mut args, "--world-url");
    push_str(&mut args, cfg.world_url.as_str());
    push_str(&mut args, "--agent-id");
    push_str(&mut args, cfg.agent_id.as_str());
    push_str(&mut args, "--startup-id");
    push_str(&mut args, cfg.startup_id.as_str());
    push_str(&mut args, "--secret");
    push_str(&mut args, cfg.secret.as_str());
    push_str(&mut args, "--workspace");
    push_str(&mut args, cfg.workspace.as_str());
    push_str(&mut args, "--backend");
    push_str(&mut args, cfg.backend.as_str());
    assert(strings_view(args@) =~= lead + agent_flags(*cfg));
    args
}

/// What the supervisor does once a worker has exited.
#[derive(Debug, Clone, Copy, PartialEq, Eq, Structural)]
pub enum AfterExit {
    /// The startup was dissolved: forget the worker.
    Dissolved,
    /// The worker exited successfully: forget it.
    Clean,
    /// Too many crashes: record `worker_dead` with this many attempts and
    /// forget the worker.
    Dead(u64),
    /// Sleep this many milliseconds, then respawn (unless dissolved
    /// meanwhile); the crash count is now the second field.
    Retry(u64, u64),
}

pub open spec fn after_exit_spec(tombstoned: bool, succeeded: bool, failures: u64, backoff: Seq<u64>) -> AfterExit {
    if tombstoned {
        AfterExit::Dissolved
    } else if succeeded {
        AfterExit::Clean
    } else if failures + 1 > backoff.len() {
        AfterExit::Dead((failures + 1) as u64)
    } else {
        AfterExit::Retry(backoff[failures as int], (failures + 1) as u64)
    }
}

/// The decision after a worker exit. `failures` counts the crashes so far;
/// a dissolve outranks everything, a clean exit ends supervision, and a
/// crash is retried after the backoff of its rank until the schedule runs
/// out.
pub fn after_exit(tombstoned: bool, succeeded: bool, failures: u64, backoff: &Vec<u64>) -> (r: AfterExit)
    requires
        failures < u64::MAX,
    ensures
        r == after_exit_spec(tombstoned, succeeded, failures, backoff@),
{
    if tombstoned {
        return AfterExit::Dissolved;
    }
    if succeeded {
        return AfterExit::Clean;
    }
    let n = failures + 1;
    if n as u128 > backoff.len() as u128 {
        return AfterExit::Dead(n);
    }
    AfterExit::Retry(backoff[failures as usize], n)
}

/// A supervised worker: agent id, process id if known, startup.
pub type WorkerEntry = (String, Option<u32>, String);

pub open spec fn of_startup(startup_id: Seq<char>) -> spec_fn(WorkerEntry) -> bool {
    |e: WorkerEntry| e.2@ == startup_id
}

/// The workers a dissolve of `startup_id` signals, as (agent id, process
/// id), in table order.
pub fn dissolve_targets(entries: &Vec<WorkerEntry>, startup_id: &str) -> (t: Vec<(String, Option<u32>)>)
    ensures
        t@.map_values(|p: (String, Option<u32>)| (p.0@, p.1)) == entries@.filter(of_startup(startup_id@)).map_values(
            |e: WorkerEntry| (e.0@, e.1),
        ),
{
    let ghost all = entries@;
    let ghost f = of_startup(startup_id@);
    let mut t: Vec<(String, Option<u32>)> = Vec::new();
    let mut i: usize = 0;
    proof {
        reveal(Seq::filter);
        assert(all.take(0).filter(f) =~= Seq::<WorkerEntry>::empty());
        assert(t@.map_values(|p: (String, Option<u32>)| (p.0@, p.1)) =~= Seq::<(Seq<char>, Option<u32>)>::empty());
    }
    while i < entries.len()
        invariant
            0 <= i <= all.len(),
            all == entries@,
            f == of_startup(startup_id@),
            t@.map_values(|p: (String, Option<u32>)| (p.0@, p.1)) == all.take(i as int).filter(f).map_values(
                |e: WorkerEntry| (e.0@, e.1),
            ),
        decreases entries.len() - i,
    {
        let e = &entries[i];
        proof {
            reveal(Seq::filter);
            assert(all.take(i as int + 1).drop_last() =~= all.take(i as int));
            assert(all.take(i as int + 1).last() == all[i as int]);
        }
        if str_eq(e.2.as_str(), startup_id) {
            let ghost before = t@.map_values(|p: (String, Option<u32>)| (p.0@, p.1));
            t.push((e.0.clone(), e.1));
            proof {
                assert(t@.map_values(|p: (String, Option<u32>)| (p.0@, p.1)) =~= before.push((e.0@, e.1)));
                assert(all.take(i as int + 1).filter(f) == all.take(i as int).filter(f).push(*e));
                assert(all.take(i as int + 1).filter(f).map_values(|x: WorkerEntry| (x.0@, x.1))
                    =~= all.take(i as int).filter(f).map_values(|x: WorkerEntry| (x.0@, x.1)).push(
                    (e.0@, e.1),
                ));
            }
        } else {
            proof {
                assert(all.take(i as int + 1).filter(f) == all.take(i as int).filter(f));
            }
        }
        i += 1;
    }
    proof {
        assert(all.take(all.len() as int) =~= all);
    }
    t
}


/// A crashed worker is restarted at most once per entry of the backoff
/// schedule, each time after that entry's delay, and declared dead once the
/// schedule is spent; a clean exit ends supervision; a dissolve always wins.
pub proof fn law_retries_bounded(tombstoned: bool, succeeded: bool, failures: u64, backoff: Seq<u64>)
    requires
        failures < u64::MAX,
    ensures
        tombstoned ==> after_exit_spec(tombstoned, succeeded, failures, backoff) == AfterExit::Dissolved,
        after_exit_spec(tombstoned, succeeded, failures, backoff) matches AfterExit::Retry(delay, n) ==> n
            <= backoff.len() && n == failures + 1 && delay == backoff[failures as int],
        after_exit_spec(tombstoned, succeeded, failures, backoff) matches AfterExit::Dead(n) ==> n
            > backoff.len(),
        !tombstoned && succeeded ==> after_exit_spec(tombstoned, succeeded, failures, backoff) == AfterExit::Clean,
        !tombstoned && !succeeded && failures < backoff.len() ==> after_exit_spec(
            tombstoned,
            succeeded,
            failures,
            backoff,
        ) == AfterExit::Retry(backoff[failures as int], (failures + 1) as u64),
        !tombstoned && !succeeded && failures >= backoff.len() ==> after_exit_spec(
            tombstoned,
            succeeded,
            failures,
            backoff,
        ) == AfterExit::Dead((failures + 1) as u64),
{
}

} // verus!
