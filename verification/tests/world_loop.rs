use cliptown_world::det::{unix_seconds, uuid_v4_from_random_bytes, Randomness};
use cliptown_world::agent_supervisor::{after_exit, dissolve_targets, worker_command_args, AfterExit, SpawnConfig, SupervisorConfig, DEFAULT_BACKOFF_MS};
use cliptown_world::budget::{startup_agent_ids, threshold_event, Threshold, PAUSE_REASON_BUDGET};
use cliptown_world::health::Health;
use cliptown_world::loop_::{advance_tick, insert_avatars, release_suite};
use cliptown_world::metrics::{health_counts, Counters};
use cliptown_world::move_sys::PathStore;
use cliptown_world::proximity::{proximity_groups, room_members};
use cliptown_world::scheduler::{pick_room_center, plan_dispatch, DispatchStep};
use cliptown_world::seed::TownLayout;
use cliptown_world::state::{AvatarView, WorldView};

fn avatar(id: &str, startup: &str, room: &str, health: Health) -> AvatarView {
    AvatarView {
        agent_id: id.to_string(),
        startup_id: startup.to_string(),
        role: "engineer".to_string(),
        backend: "codex".to_string(),
        current_pos: (10, 5),
        target_pos: None,
        room_id: room.to_string(),
        status: "idle".to_string(),
        last_seen_at: None,
        health,
    }
}

#[test]
fn room_centres() {
    let t = TownLayout::default_town();
    assert_eq!(pick_room_center(&t, "suite_1"), Some((3, 3)));
    assert_eq!(pick_room_center(&t, "lobby"), Some((20, 6)));
    assert_eq!(pick_room_center(&t, "roof"), None);
}

#[test]
fn dispatch_decisions() {
    let t = TownLayout::default_town();
    assert_eq!(plan_dispatch(&t, None, None, false, false, true), DispatchStep::Skip);
    assert_eq!(plan_dispatch(&t, Some(("working", "lobby")), None, false, false, true), DispatchStep::Skip);
    assert_eq!(plan_dispatch(&t, Some(("idle", "lobby")), Some("suite_1"), false, false, true), DispatchStep::MoveTo(3, 3));
    assert_eq!(plan_dispatch(&t, Some(("idle", "lobby")), Some("suite_1"), true, false, true), DispatchStep::Skip);
    assert_eq!(plan_dispatch(&t, Some(("idle", "lobby")), Some("roof"), false, false, true), DispatchStep::Skip);
    assert_eq!(plan_dispatch(&t, Some(("idle", "lobby")), Some("lobby"), false, true, true), DispatchStep::Skip);
    assert_eq!(plan_dispatch(&t, Some(("idle", "lobby")), Some("lobby"), false, false, false), DispatchStep::Skip);
    assert_eq!(plan_dispatch(&t, Some(("idle", "lobby")), Some("lobby"), false, false, true), DispatchStep::Dispatch);
    assert_eq!(plan_dispatch(&t, Some(("idle", "lobby")), None, false, false, true), DispatchStep::Dispatch);
}

#[test]
fn supervisor_backoff() {
    let b = DEFAULT_BACKOFF_MS.to_vec();
    assert_eq!(after_exit(true, false, 0, &b), AfterExit::Dissolved);
    assert_eq!(after_exit(false, true, 2, &b), AfterExit::Clean);
    assert_eq!(after_exit(false, false, 0, &b), AfterExit::Retry(1000, 1));
    assert_eq!(after_exit(false, false, 1, &b), AfterExit::Retry(5000, 2));
    assert_eq!(after_exit(false, false, 2, &b), AfterExit::Retry(30000, 3));
    assert_eq!(after_exit(false, false, 3, &b), AfterExit::Dead(4));
}

#[test]
fn supervisor_command_line() {
    let node = SupervisorConfig::with_worker_bin("node".into());
    assert_eq!(node.worker_args, vec!["packages/worker/dist/index.js".to_string()]);
    assert_eq!(node.backoff_ms, vec![1000, 5000, 30000]);
    let other = SupervisorConfig::with_worker_bin("/bin/worker".into());
    assert!(other.worker_args.is_empty());
    let cfg = SpawnConfig {
        agent_id: "A1".into(),
        startup_id: "S1".into(),
        world_url: "ws://w".into(),
        secret: "s3".into(),
        workspace: "workspaces/S1".into(),
        backend: "codex".into(),
    };
    let args = worker_command_args(&node, &cfg);
    assert_eq!(
        args,
        vec![
            "packages/worker/dist/index.js", "--world-url", "ws://w", "--agent-id", "A1", "--startup-id", "S1",
            "--secret", "s3", "--workspace", "workspaces/S1", "--backend", "codex",
        ]
    );
    let entries = vec![
        ("A1".to_string(), Some(11u32), "S1".to_string()),
        ("A2".to_string(), None, "S2".to_string()),
        ("A3".to_string(), Some(13u32), "S1".to_string()),
    ];
    assert_eq!(dissolve_targets(&entries, "S1"), vec![("A1".to_string(), Some(11)), ("A3".to_string(), Some(13))]);
}

#[test]
fn budget_events_and_recipients() {
    assert_eq!(threshold_event(Threshold::Warn80), ("warn", "budget_warn_80"));
    assert_eq!(threshold_event(Threshold::Warn95), ("warn", "budget_warn_95"));
    assert_eq!(threshold_event(Threshold::Pause100), ("alert", "budget_pause_100"));
    assert_eq!(PAUSE_REASON_BUDGET, "budget_exhausted");
    let avs = vec![avatar("A", "S1", "lobby", Health::Online), avatar("B", "S2", "lobby", Health::Online), avatar("C", "S1", "cafe", Health::Online)];
    assert_eq!(startup_agent_ids(&avs, "S1"), vec!["A".to_string(), "C".to_string()]);
}

#[test]
fn counters_and_health_buckets() {
    let mut c = Counters::new();
    c.inc_call();
    c.inc_call();
    c.inc_error();
    assert_eq!((c.mcp_calls_total, c.mcp_errors_total), (2, 1));
    c.mcp_calls_total = u64::MAX;
    c.inc_call();
    assert_eq!(c.mcp_calls_total, 0);
    let avs = vec![
        avatar("A", "S1", "lobby", Health::Online),
        avatar("B", "S1", "lobby", Health::Offline),
        avatar("C", "S1", "lobby", Health::Online),
        avatar("D", "S1", "lobby", Health::AboutToGc),
    ];
    assert_eq!(health_counts(&avs), (2, 0, 1, 1));
}

#[test]
fn proximity_groups_by_room() {
    let avs = vec![
        avatar("A", "S1", "lobby", Health::Online),
        avatar("B", "S2", "cafe", Health::Online),
        avatar("C", "S2", "lobby", Health::Online),
    ];
    let g = proximity_groups(&avs);
    assert_eq!(g.len(), 2);
    assert_eq!(g[0].0, "lobby");
    assert_eq!(g[0].1, vec![("A".to_string(), "engineer".to_string(), "S1".to_string()), ("C".to_string(), "engineer".to_string(), "S2".to_string())]);
    assert_eq!(g[1].0, "cafe");
    assert_eq!(room_members(&avs, "library").len(), 0);
}

#[test]
fn loop_state_changes() {
    let mut w = WorldView::new();
    let mut layout = TownLayout::default_town();
    let mut paths: PathStore = Vec::new();
    insert_avatars(&mut w, &mut layout, vec![avatar("A", "S1", "suite_1", Health::Offline), avatar("B", "S1", "suite_1", Health::Offline)], Some(("suite_1".into(), "S1".into())));
    assert_eq!(w.avatars.len(), 2);
    assert_eq!(layout.room("suite_1").unwrap().private_to_startup_id.as_deref(), Some("S1"));
    insert_avatars(&mut w, &mut layout, vec![avatar("C", "S2", "lobby", Health::Online)], None);
    assert_eq!(w.avatars.len(), 3);
    let events = advance_tick(&mut w, &mut paths, &layout);
    assert!(events.is_empty());
    assert_eq!(w.tick_seq, 1);
    release_suite(&mut w, &mut layout, "S1");
    assert_eq!(w.avatars.len(), 1);
    assert_eq!(w.avatars[0].agent_id, "C");
    assert!(layout.room("suite_1").unwrap().private_to_startup_id.is_none());
    w.tick_seq = u64::MAX;
    advance_tick(&mut w, &mut paths, &layout);
    assert_eq!(w.tick_seq, 0);
}

#[test]
fn production_sources() {
    use_sources(&cliptown_world::det::DetCtx::prod());
}

fn use_sources(ctx: &cliptown_world::det::DetCtx<cliptown_world::det::ProdClock, cliptown_world::det::ProdRandom, cliptown_world::det::ProdUuid>) {
    use_clock(&*ctx.clock);
    let a = uuid_of(&*ctx.uuid);
    let b = uuid_of(&*ctx.uuid);
    assert_eq!(a.len(), 36);
    assert_ne!(a, b);
    let c: Vec<char> = a.chars().collect();
    for (i, ch) in c.iter().enumerate() {
        if [8, 13, 18, 23].contains(&i) {
            assert_eq!(*ch, '-');
        } else {
            assert!(ch.is_ascii_digit() || ('a'..='f').contains(ch));
        }
    }
    assert_eq!(c[14], '4');
    assert!(['8', '9', 'a', 'b'].contains(&c[19]));
}

fn use_clock<C: cliptown_world::det::Clock>(c: &C) {
    assert!(c.now_unix() > 1_600_000_000);
}

fn uuid_of<U: cliptown_world::det::UuidGen>(u: &U) -> String {
    u.new().expect("the operating system's generator answered")
}

#[test]
fn production_random_numbers_vary() {
    let r = cliptown_world::det::ProdRandom;
    let draws: Vec<u32> = (0..8).map(|_| r.next_u32().unwrap()).collect();
    assert!(draws.iter().any(|d| *d != draws[0]));
}

#[test]
fn unix_seconds_from_clock_outcomes() {
    assert_eq!(unix_seconds(Ok(1_700_000_000)), 1_700_000_000);
    assert_eq!(unix_seconds(Err(5)), -5);
    assert_eq!(unix_seconds(Ok(u64::MAX)), i64::MAX);
    assert_eq!(unix_seconds(Err(u64::MAX)), i64::MIN);
}

#[test]
fn uuid_text_of_fixed_bytes() {
    assert_eq!(uuid_v4_from_random_bytes([0u8; 16]), "00000000-0000-4000-8000-000000000000");
    assert_eq!(uuid_v4_from_random_bytes([0xffu8; 16]), "ffffffff-ffff-4fff-bfff-ffffffffffff");
    let bytes: [u8; 16] = [0x12, 0x34, 0x56, 0x78, 0x9a, 0xbc, 0xde, 0xf0, 0x12, 0x34, 0x56, 0x78, 0x9a, 0xbc, 0xde, 0xf0];
    assert_eq!(uuid_v4_from_random_bytes(bytes), "12345678-9abc-4ef0-9234-56789abcdef0");
}
