use cliptown_world::health::Health;
use cliptown_world::move_sys::{can_enter_layout_room, graph_from_layout, start_move, step_all, MoveEvent, PathStore, StartMoveResult};
use cliptown_world::path::{full_route, tile_path, adjacent_inside, Door, RoomGraph};
use cliptown_world::seed::TownLayout;
use cliptown_world::state::{AvatarView, WorldView};

fn avatar(id: &str, startup: &str, room: &str, pos: (i32, i32)) -> AvatarView {
    AvatarView {
        agent_id: id.to_string(),
        startup_id: startup.to_string(),
        role: "engineer".to_string(),
        backend: "codex".to_string(),
        current_pos: pos,
        target_pos: None,
        room_id: room.to_string(),
        status: "idle".to_string(),
        last_seen_at: None,
        health: Health::Online,
    }
}

fn manhattan(a: (i32, i32), b: (i32, i32)) -> usize {
    ((a.0 - b.0).abs() + (a.1 - b.1).abs()) as usize
}

fn assert_grid_path(p: &[(i32, i32)]) {
    for w in p.windows(2) {
        assert_eq!(manhattan(w[0], w[1]), 1, "non-adjacent step {:?} -> {:?}", w[0], w[1]);
    }
}

#[test]
fn tile_path_is_shortest_and_in_bounds() {
    let b = (0, 0, 7, 6);
    let p = tile_path(b, (1, 1), (6, 4)).unwrap();
    assert_eq!(p.first(), Some(&(1, 1)));
    assert_eq!(p.last(), Some(&(6, 4)));
    assert_eq!(p.len(), manhattan((1, 1), (6, 4)) + 1);
    assert_grid_path(&p);
    assert!(p.iter().all(|t| t.0 >= 0 && t.0 < 7 && t.1 >= 0 && t.1 < 6));
    assert_eq!(tile_path(b, (1, 1), (7, 4)), None);
    assert_eq!(tile_path(b, (2, 2), (2, 2)), Some(vec![(2, 2)]));
}

#[test]
fn adjacent_inside_picks_the_door_or_a_neighbour() {
    let t = adjacent_inside((0, 0, 7, 6), (7, 4)).unwrap();
    assert_eq!(t, (6, 4));
    // A door tile inside the room is its own entry.
    assert_eq!(adjacent_inside((7, 4, 26, 4), (7, 4)), Some((7, 4)));
    assert_eq!(adjacent_inside((0, 0, 2, 2), (5, 5)), None);
}

#[test]
fn room_route_goes_through_the_lobby() {
    let g = graph_from_layout(&TownLayout::default_town());
    let w = g.route("suite_1", "cafe").unwrap();
    let rooms: Vec<&str> = w.iter().map(|l| l.0.as_str()).collect();
    assert_eq!(rooms, vec!["lobby", "cafe"]);
    assert_eq!(w[0].1, (7, 4));
    assert_eq!(w[1].1, (20, 4));
    assert!(g.route("suite_1", "nowhere").is_none());
    assert_eq!(g.route("lobby", "lobby").map(|w| w.len()), Some(0));
}

#[test]
fn unlinked_rooms_have_no_route() {
    let g = RoomGraph::from_doors(vec![Door { a: "x".into(), b: "y".into(), tile: (1, 0) }]);
    assert!(g.route("x", "y").is_some());
    assert!(g.route("x", "z").is_none());
}

#[test]
fn full_route_segments_meet_at_doors() {
    let layout = TownLayout::default_town();
    let g = graph_from_layout(&layout);
    let bounds = layout.room_bounds_map();
    let r = full_route(&g, &bounds, ("suite_1", (1, 1)), ("lobby", (10, 5))).unwrap();
    assert_eq!(r.len(), 2);
    assert_eq!(r[0].0, "suite_1");
    assert_eq!(r[1].0, "lobby");
    assert_eq!(r[0].1.first(), Some(&(1, 1)));
    assert_eq!(r[0].1.last(), Some(&(7, 4)));
    assert_eq!(r[0].1.len(), manhattan((1, 1), (6, 4)) + 2);
    assert_eq!(r[1].1.last(), Some(&(10, 5)));
    assert_grid_path(&r[0].1);
    assert_grid_path(&r[1].1);
    assert!(full_route(&g, &bounds, ("suite_1", (1, 1)), ("lobby", (100, 5))).is_none());
}

#[test]
fn private_suites_refuse_other_startups() {
    let mut layout = TownLayout::default_town();
    assert!(can_enter_layout_room(&layout, "S2", "suite_1"));
    layout.claim_suite("suite_1", "S1");
    assert!(can_enter_layout_room(&layout, "S1", "suite_1"));
    assert!(!can_enter_layout_room(&layout, "S2", "suite_1"));
    assert!(!can_enter_layout_room(&layout, "S1", "no_such_room"));
    layout.release_suites("S1");
    assert!(can_enter_layout_room(&layout, "S2", "suite_1"));
}

#[test]
fn move_walks_to_target_and_reports_arrival() {
    let layout = TownLayout::default_town();
    let g = graph_from_layout(&layout);
    let mut world = WorldView::new();
    world.upsert_avatar(avatar("A1", "S1", "suite_1", (1, 1)));
    let mut paths: PathStore = Vec::new();
    let r = start_move(&mut world, &mut paths, &layout, &g, "A1", "lobby", 10, 5);
    assert_eq!(r, StartMoveResult::Accepted);
    assert_eq!(world.avatars[0].target_pos, Some((10, 5)));
    let mut ticks = 0;
    let mut arrived = None;
    while arrived.is_none() && ticks < 100 {
        let events = step_all(&mut world, &mut paths, &layout);
        ticks += 1;
        for e in events {
            match e {
                MoveEvent::Complete { agent_id, room_id } => arrived = Some((agent_id, room_id)),
            }
        }
    }
    assert_eq!(arrived, Some(("A1".to_string(), "lobby".to_string())));
    assert_eq!(ticks, 13);
    assert_eq!(world.avatars[0].current_pos, (10, 5));
    assert_eq!(world.avatars[0].room_id, "lobby");
    assert_eq!(world.avatars[0].target_pos, None);
    assert!(paths.is_empty());
}

#[test]
fn move_refusals() {
    let mut layout = TownLayout::default_town();
    layout.claim_suite("suite_2", "S9");
    let g = graph_from_layout(&layout);
    let mut world = WorldView::new();
    world.upsert_avatar(avatar("A1", "S1", "lobby", (10, 5)));
    let mut paths: PathStore = Vec::new();
    assert_eq!(start_move(&mut world, &mut paths, &layout, &g, "nobody", "lobby", 10, 5), StartMoveResult::NoSuchAgent);
    assert_eq!(start_move(&mut world, &mut paths, &layout, &g, "A1", "suite_2", 1, 7), StartMoveResult::PermissionDenied);
    assert_eq!(start_move(&mut world, &mut paths, &layout, &g, "A1", "lobby", 500, 5), StartMoveResult::NoPath);
    assert!(paths.is_empty());
    assert_eq!(start_move(&mut world, &mut paths, &layout, &g, "A1", "lobby", 10, 5), StartMoveResult::Accepted);
    assert!(paths.is_empty());
    assert_eq!(world.avatars[0].target_pos, None);
}

#[test]
fn default_town_shape() {
    let t = TownLayout::default_town();
    assert_eq!(t.rooms.len(), 7);
    assert_eq!(t.doors.len(), 6);
    assert_eq!(t.room("lobby").unwrap().bounds, (7, 4, 26, 4));
    assert!(t.room("attic").is_none());
    assert_eq!(t.door_at((20, 8)).unwrap().id, "door_lobby_library");
    assert!(t.door_at((0, 0)).is_none());
    let m = t.room_bounds_map();
    assert_eq!(m.len(), 7);
    assert_eq!(m[0], ("suite_1".to_string(), (0, 0, 7, 6)));
}

#[test]
fn door_graph_routes_take_the_fewest_doors() {
    let d = |a: &str, b: &str, t: (i32, i32)| Door { a: a.into(), b: b.into(), tile: t };
    let g = RoomGraph::from_doors(vec![d("a", "b", (1, 0)), d("b", "c", (2, 0)), d("c", "d", (3, 0)), d("a", "d", (4, 0))]);
    let total: usize = g.neighbors.iter().map(|(_, links)| links.len()).sum();
    assert_eq!(total, 8);
    let w = g.route("a", "d").unwrap();
    assert_eq!(w, vec![("d".to_string(), (4, 0))]);
    let w = g.route("b", "d").unwrap();
    assert_eq!(w.len(), 2);
    assert_eq!(w.last().unwrap().0, "d");
}

#[test]
fn door_inside_the_room_still_enters_the_next_room() {
    let layout = TownLayout::default_town();
    let g = graph_from_layout(&layout);
    let mut world = WorldView::new();
    world.upsert_avatar(avatar("a1", "s1", "lobby", (8, 4)));
    let mut paths: PathStore = Vec::new();
    let r = start_move(&mut world, &mut paths, &layout, &g, "a1", "suite_1", 6, 4);
    assert_eq!(r, StartMoveResult::Accepted);
    assert_eq!(world.avatars[0].target_pos, Some((6, 4)));
    assert_eq!(paths.len(), 1);
    let steps: Vec<((i32, i32), Option<String>)> = paths[0].1.iter().map(|s| (s.tile, s.enter_room.clone())).collect();
    assert_eq!(steps, vec![((7, 4), Some("suite_1".to_string())), ((6, 4), None)]);
    let first = step_all(&mut world, &mut paths, &layout);
    assert!(first.is_empty());
    assert_eq!(world.avatars[0].room_id, "suite_1");
    let second = step_all(&mut world, &mut paths, &layout);
    assert_eq!(second.len(), 1);
    match &second[0] {
        MoveEvent::Complete { agent_id, room_id } => {
            assert_eq!(agent_id, "a1");
            assert_eq!(room_id, "suite_1");
        }
    }
    assert_eq!(world.avatars[0].current_pos, (6, 4));
    assert_eq!(world.avatars[0].target_pos, None);
    assert!(paths.is_empty());
}
