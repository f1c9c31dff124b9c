use cliptown_world::health::Health;
use cliptown_world::state::{AvatarView, WorldView};
use cliptown_world::view::{build_worker_snapshot, chunk_json, reassemble_payloads, ChunkFrame, MessageStub, ReassembleError, CHUNK_SIZE, CHUNK_THRESHOLD, MESSAGE_CAP, PEER_CAP};

fn avatar(id: &str, startup: &str, room: &str) -> AvatarView {
    AvatarView {
        agent_id: id.to_string(),
        startup_id: startup.to_string(),
        role: "engineer".to_string(),
        backend: "codex".to_string(),
        current_pos: (10, 5),
        target_pos: None,
        room_id: room.to_string(),
        status: "idle".to_string(),
        last_seen_at: None,
        health: Health::Online,
    }
}

#[test]
fn small_snapshot_is_one_frame() {
    let frames = chunk_json("{\"a\":1}");
    assert_eq!(frames.len(), 1);
    assert_eq!(frames[0].seq, 0);
    assert_eq!(frames[0].total, 1);
    assert_eq!(frames[0].payload, "{\"a\":1}");
}

#[test]
fn threshold_sized_snapshot_is_one_frame() {
    let s = "x".repeat(CHUNK_THRESHOLD);
    let frames = chunk_json(&s);
    assert_eq!(frames.len(), 1);
    assert_eq!(frames[0].payload.len(), CHUNK_THRESHOLD);
}

#[test]
fn large_snapshot_chunks_on_char_boundaries_and_round_trips() {
    // Three-byte characters, so some windows must back off to a boundary.
    let s: String = "€".repeat(100_000) + "tail";
    let frames = chunk_json(&s);
    assert!(frames.len() > 1);
    let n = frames.len() as u32;
    for (i, f) in frames.iter().enumerate() {
        assert_eq!(f.seq, i as u32);
        assert_eq!(f.total, n);
        assert!(f.payload.len() <= CHUNK_SIZE);
        assert!(!f.payload.is_empty());
    }
    assert_eq!(reassemble_payloads(&frames).unwrap(), s);
}

#[test]
fn reassemble_refuses_incomplete_sequences() {
    assert_eq!(reassemble_payloads(&Vec::new()).unwrap_err(), ReassembleError::EmptyFrames);
    let frames = vec![ChunkFrame { seq: 0, total: 2, payload: "ab".into() }];
    assert_eq!(reassemble_payloads(&frames).unwrap_err(), ReassembleError::CountMismatch);
    let frames = vec![
        ChunkFrame { seq: 0, total: 2, payload: "ab".into() },
        ChunkFrame { seq: 1, total: 2, payload: "cd".into() },
    ];
    assert_eq!(reassemble_payloads(&frames).unwrap(), "abcd");
}

#[test]
fn worker_snapshot_holds_own_avatar_and_room_peers() {
    let mut w = WorldView::new();
    w.upsert_avatar(avatar("A1", "S1", "lobby"));
    w.upsert_avatar(avatar("A2", "S2", "lobby"));
    w.upsert_avatar(avatar("A3", "S1", "cafe"));
    let msgs: Vec<MessageStub> = (0..25)
        .map(|i| MessageStub { id: format!("m{i}"), author_id: "A2".into(), body: "hi".into(), kind: "chat".into(), ts: i })
        .collect();
    let snap = build_worker_snapshot(&w, "A1", "S1", msgs, Some("T1".into()));
    assert_eq!(snap.own_avatar.unwrap().agent_id, "A1");
    let peers: Vec<&str> = snap.peers_in_room.iter().map(|a| a.agent_id.as_str()).collect();
    assert_eq!(peers, vec!["A2"]);
    assert_eq!(snap.recent_messages.len(), MESSAGE_CAP);
    assert_eq!(snap.recent_messages[0].id, "m5");
    assert_eq!(snap.current_task_id.as_deref(), Some("T1"));
}

#[test]
fn worker_snapshot_caps_peers() {
    let mut w = WorldView::new();
    w.upsert_avatar(avatar("me", "S1", "lobby"));
    for i in 0..20 {
        w.upsert_avatar(avatar(&format!("p{i}"), "S1", "lobby"));
    }
    let snap = build_worker_snapshot(&w, "me", "S1", Vec::new(), None);
    assert_eq!(snap.peers_in_room.len(), PEER_CAP);
    assert_eq!(snap.peers_in_room[0].agent_id, "p0");
    let none = build_worker_snapshot(&w, "ghost", "S1", Vec::new(), None);
    assert!(none.own_avatar.is_none());
    assert!(none.peers_in_room.is_empty());
}
