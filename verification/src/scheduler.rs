//! The scheduler's decision for one queued task on one tick: hand it to
//! its assignee, send the assignee toward the task's required room, or
//! leave it queued for a later tick. The tick itself (queries, the
//! status write, delivery to the worker) is the caller's part.

use vstd::prelude::*;
use crate::seed::{TownLayout, room_spec};
use crate::text::str_eq;

verus! {

pub open spec fn half_toward_zero(v: i32) -> int {
    if v >= 0 { v / 2 } else { -((-v) / 2) }
}

pub open spec fn center_of(b: (i32, i32, i32, i32)) -> (int, int) {
    (b.0 + half_toward_zero(b.2), b.1 + half_toward_zero(b.3))
}

pub open spec fn center_fits(b: (i32, i32, i32, i32)) -> bool {
    i32::MIN <= center_of(b).0 <= i32::MAX && i32::MIN <= center_of(b).1 <= i32::MAX
}

/// The centre tile of a room: `(x + w / 2, y + h / 2)`, halves rounded
/// toward zero, or `None` for a room the layout does not have.
pub fn pick_room_center(layout: &TownLayout, room_id: &str) -> (r: Option<(i32, i32)>)
    requires
        room_spec(layout.rooms@, room_id@) matches Some(rd) ==> center_fits(rd.bounds),
    ensures
        match room_spec(layout.rooms@, room_id@) {
            Some(rd) => r == Some((center_of(rd.bounds).0 as i32, center_of(rd.bounds).1 as i32)),
            None => r is None,
        },
{
    match layout.room(room_id) {
        Some(r) => {
            let b = r.bounds;
            let cx = b.0 + b.2 / 2;
            let cy = b.1 + b.3 / 2;
            Some((cx, cy))
        },
        None => None,
    }
}

/// What the scheduler does with a queued task this tick.
#[derive(Debug, Clone, Copy, PartialEq, Eq, Structural)]
pub enum DispatchStep {
    /// Leave it queued.
    Skip,
    /// Leave it queued, and start moving the assignee to this tile.
    MoveTo(i32, i32),
    /// Mark it in progress and deliver it to the assignee's worker.
    Dispatch,
}

/// The order of the checks: the assignee must be connected and idle; if the
/// task needs a room the assignee is not in, the assignee is sent to the
/// room's centre unless a path is already in flight; a startup at its
/// budget gate gets nothing new; nor does an assignee without a
/// registered worker.
pub open spec fn dispatch_spec(
    rooms: Seq<crate::seed::RoomDef>,
    avatar: Option<(Seq<char>, Seq<char>)>,
    required_room: Option<Seq<char>>,
    path_in_flight: bool,
    budget_exhausted: bool,
    worker_registered: bool,
) -> DispatchStep {
    match avatar {
        None => DispatchStep::Skip,
        Some((status, room)) => if status != "idle"@ {
            DispatchStep::Skip
        } else if required_room matches Some(req) && req != room {
            if path_in_flight {
                DispatchStep::Skip
            } else {
                match room_spec(rooms, required_room->0) {
                    Some(rd) => DispatchStep::MoveTo(
                        center_of(rd.bounds).0 as i32,
                        center_of(rd.bounds).1 as i32,
                    ),
                    None => DispatchStep::Skip,
                }
            }
        } else if budget_exhausted {
            DispatchStep::Skip
        } else if !worker_registered {
            DispatchStep::Skip
        } else {
            DispatchStep::Dispatch
        },
    }
}

/// The decision for one queued task. `avatar` is the assignee's status
/// and room, if it is connected.
pub fn plan_dispatch(
    layout: &TownLayout,
    avatar: Option<(&str, &str)>,
    required_room: Option<&str>,
    path_in_flight: bool,
    budget_exhausted: bool,
    worker_registered: bool,
) -> (r: DispatchStep)
    requires
        required_room matches Some(req) ==> (room_spec(layout.rooms@, req@) matches Some(rd)
            ==> center_fits(rd.bounds)),
    ensures
        r == dispatch_spec(
            layout.rooms@,
            match avatar {
                Some((s, m)) => Some((s@, m@)),
                None => None,
            },
            match required_room {
                Some(q) => Some(q@),
                None => None,
            },
            path_in_flight,
            budget_exhausted,
            worker_registered,
        ),
{
    let (status, room) = match avatar {
        None => return DispatchStep::Skip,
        Some(a) => a,
    };
    if !str_eq(status, "idle") {
        return DispatchStep::Skip;
    }
    if let Some(req) = required_room {
        if !str_eq(req, room) {
            if path_in_flight {
                return DispatchStep::Skip;
            }
            return match pick_room_center(layout, req) {
                Some((cx, cy)) => DispatchStep::MoveTo(cx, cy),
                None => DispatchStep::Skip,
            };
        }
    }
    if budget_exhausted {
        return DispatchStep::Skip;
    }
    if !worker_registered {
        return DispatchStep::Skip;
    }
    DispatchStep::Dispatch
}


/// A task is handed only to a connected, idle assignee standing in the
/// task's room (when it names one), whose startup is below the budget gate
/// and whose worker is registered.
pub proof fn law_dispatch_preconditions(
    rooms: Seq<crate::seed::RoomDef>,
    avatar: Option<(Seq<char>, Seq<char>)>,
    required_room: Option<Seq<char>>,
    path_in_flight: bool,
    budget_exhausted: bool,
    worker_registered: bool,
)
    requires
        dispatch_spec(rooms, avatar, required_room, path_in_flight, budget_exhausted, worker_registered)
            == DispatchStep::Dispatch,
    ensures
        avatar matches Some((status, room)) && status == "idle"@ && (required_room matches Some(req)
            ==> req == room),
        !budget_exhausted,
        worker_registered,
{
}

/// While a path is in flight no new move is started, and an assignee in
/// the wrong room is never handed the task.
pub proof fn law_no_second_move(
    rooms: Seq<crate::seed::RoomDef>,
    status: Seq<char>,
    room: Seq<char>,
    req: Seq<char>,
    budget_exhausted: bool,
    worker_registered: bool,
)
    requires
        req != room,
    ensures
        dispatch_spec(rooms, Some((status, room)), Some(req), true, budget_exhausted, worker_registered)
            == DispatchStep::Skip,
        dispatch_spec(rooms, Some((status, room)), Some(req), false, budget_exhausted, worker_registered)
            != DispatchStep::Dispatch,
{
}

/// Only an idle, connected assignee is ever dispatched or moved: an
/// absent or busy assignee leaves the task alone.
pub proof fn law_busy_assignee_left_alone(
    rooms: Seq<crate::seed::RoomDef>,
    avatar: Option<(Seq<char>, Seq<char>)>,
    required_room: Option<Seq<char>>,
    path_in_flight: bool,
    budget_exhausted: bool,
    worker_registered: bool,
)
    requires
        avatar matches Some((status, _room)) ==> status != "idle"@,
    ensures
        dispatch_spec(rooms, avatar, required_room, path_in_flight, budget_exhausted, worker_registered)
            == DispatchStep::Skip,
{
}

/// A task is dispatched exactly when its assignee is connected and idle,
/// already in the required room (if any), its startup is under its budget
/// gate, and its worker is registered.
pub proof fn law_dispatch_exactly_when_ready(
    rooms: Seq<crate::seed::RoomDef>,
    status: Seq<char>,
    room: Seq<char>,
    required_room: Option<Seq<char>>,
    path_in_flight: bool,
    budget_exhausted: bool,
    worker_registered: bool,
)
    ensures
        dispatch_spec(rooms, Some((status, room)), required_room, path_in_flight, budget_exhausted, worker_registered)
            == DispatchStep::Dispatch <==> (status == "idle"@ && (required_room is None || required_room
            == Some(room)) && !budget_exhausted && worker_registered),
{
}

/// The assignee is sent walking exactly when it is idle, the task needs a
/// room it is not in, no path is already in flight and the layout has
/// that room; it is sent to the room's centre (where the centre fits an
/// `i32`, as `plan_dispatch` requires).
pub proof fn law_move_exactly_when_elsewhere(
    rooms: Seq<crate::seed::RoomDef>,
    status: Seq<char>,
    room: Seq<char>,
    required_room: Option<Seq<char>>,
    path_in_flight: bool,
    budget_exhausted: bool,
    worker_registered: bool,
)
    ensures
        dispatch_spec(rooms, Some((status, room)), required_room, path_in_flight, budget_exhausted, worker_registered)
            is MoveTo <==> (status == "idle"@ && (required_room matches Some(q) && q != room && !path_in_flight
            && room_spec(rooms, q) is Some)),
        dispatch_spec(rooms, Some((status, room)), required_room, path_in_flight, budget_exhausted, worker_registered)
            matches DispatchStep::MoveTo(x, y) ==> ({
            let b = room_spec(rooms, required_room->0)->Some_0.bounds;
            center_fits(b) ==> x == b.0 + half_toward_zero(b.2) && y == b.1 + half_toward_zero(b.3)
        }),
{
}

} // verus!
