//! What every command keeps: users and rooms stand once, under their own numbers, and rooms
//! refer only to users who are known.
use crate::command::{ClientCommandModel, MessageModel, ServerCommandModel};
use crate::hub;
use crate::hub::{ChartModel, Record, UserModel};
use crate::room;
use crate::room::{RoomModel, Scene};
use crate::session;
use crate::session::{Settings, Texts};
use crate::table;
use crate::world;
use crate::world::WorldModel;
use vstd::prelude::*;

verus! {

/// The same users, in the same order, each under their own id if they were.
pub open spec fn same_ids(a: Seq<(i32, UserModel)>, b: Seq<(i32, UserModel)>) -> bool {
    &&& a.len() == b.len()
    &&& forall|i: int| 0 <= i < a.len() ==> a[i].0 == (#[trigger] b[i]).0
    &&& world::ids_ok(a) ==> world::ids_ok(b)
}

/// The same users are known.
pub proof fn lemma_same_ids(a: Seq<(i32, UserModel)>, b: Seq<(i32, UserModel)>)
    requires
        same_ids(a, b),
    ensures
        forall|id: i32| table::holds(a, id) == #[trigger] table::holds(b, id),
        table::distinct(a) ==> table::distinct(b),
{
    assert forall|id: i32| table::holds(a, id) == #[trigger] table::holds(b, id) by {
        table::lemma_find(a, id);
        let i = table::find(a, id);
        assert forall|j: int| 0 <= j < i implies (#[trigger] b[j]).0 != id by {
            assert(a[j].0 == b[j].0);
        }
        if i < a.len() {
            assert(a[i].0 == b[i].0);
        }
        table::lemma_find_is(b, id, i);
    }
    if table::distinct(a) {
        assert forall|i: int, j: int| 0 <= i < j < b.len() implies (#[trigger] b[i]).0 != (
        #[trigger] b[j]).0 by {
            assert(a[i].0 == b[i].0 && a[j].0 == b[j].0);
        }
    }
}

/// A user who is known may change, but for their id.
pub proof fn lemma_user_changed(users: Seq<(i32, UserModel)>, uid: i32, u: UserModel)
    requires
        table::holds(users, uid),
        u.id == uid,
    ensures
        same_ids(users, table::put(users, uid, u)),
{
    table::lemma_find(users, uid);
}

/// Setting back the times of games keeps the users.
pub proof fn lemma_times(users: Seq<(i32, UserModel)>, ids: Seq<i32>)
    requires
        world::ids_ok(users),
    ensures
        same_ids(users, hub::times_reset(users, ids)),
        world::ids_ok(hub::times_reset(users, ids)),
    decreases ids.len(),
{
    if ids.len() > 0 {
        lemma_times(users, ids.drop_last());
        let mid = hub::times_reset(users, ids.drop_last());
        table::lemma_find(mid, ids.last());
        if let Some(u) = table::lookup(mid, ids.last()) {
            lemma_user_changed(
                mid,
                ids.last(),
                UserModel { game_time: hub::NO_GAME_TIME, ..u },
            );
        }
    }
}

/// A room that refers to known users only.
pub open spec fn good(s: Scene) -> bool {
    world::ids_ok(s.hub.users) && world::known(s.room, s.hub.users)
}

/// One scene comes after another: the same users, and the room is still good.
pub open spec fn steady(s: Scene, t: Scene) -> bool {
    same_ids(s.hub.users, t.hub.users) && good(t)
}

/// A scene with the same users and the same people in the room is good.
pub proof fn lemma_same_people(s: Scene, t: Scene)
    requires
        good(s),
        same_ids(s.hub.users, t.hub.users),
        t.room.users == s.room.users,
        t.room.monitors == s.room.monitors,
        t.room.host == s.room.host || (t.room.host matches Some(h) && table::holds(
            s.hub.users,
            h,
        )),
    ensures
        steady(s, t),
{
    lemma_same_ids(s.hub.users, t.hub.users);
}

/// Beginning a game keeps a room good.
proof fn lemma_game_started(s: Scene)
    requires
        good(s),
    ensures
        steady(s, room::game_started(s)),
{
    lemma_times(s.hub.users, s.room.users);
    lemma_same_people(s, room::game_started(s));
}

/// The next host is one of the players.
pub proof fn lemma_next_host(users: Seq<i32>, host: Option<i32>)
    requires
        users.len() > 0,
    ensures
        users.contains(room::next_host(users, host)),
{
    if let Some(h) = host {
        lemma_place(users, h);
        if room::place_of(users, h) < users.len() {
            let i = (room::place_of(users, h) + 1) % (users.len() as int);
            assert(0 <= i < users.len());
            assert(users[i] == room::next_host(users, host));
        } else {
            assert(users[0] == room::next_host(users, host));
        }
    } else {
        assert(users[0] == room::next_host(users, host));
    }
}

/// A place is among the others, or after them.
proof fn lemma_place(ids: Seq<i32>, id: i32)
    ensures
        0 <= room::place_of(ids, id) <= ids.len(),
        room::place_of(ids, id) < ids.len() ==> ids[room::place_of(ids, id)] == id,
    decreases ids.len(),
{
    if ids.len() > 0 && ids[0] != id {
        lemma_place(ids.skip(1), id);
    }
}

/// Checking whether everybody is ready, or done, keeps a room good.
proof fn lemma_checked(s: Scene)
    requires
        good(s),
        !room::no_successor(s.room),
    ensures
        steady(s, room::checked(s)),
{
    match s.room.phase {
        room::Phase::SelectChart => {
            lemma_same_people(s, s);
        },
        room::Phase::LocalChart { started } => {
            if room::all_have_chart(s, started) {
                let hub = match s.room.host {
                    Some(host) => hub::told(
                        match s.room.local_chart {
                            Some((id, _)) => hub::HubModel {
                                charts: table::without(s.hub.charts, id),
                                ..s.hub
                            },
                            None => s.hub,
                        },
                        host,
                        ServerCommandModel::HostReady,
                    ),
                    None => s.hub,
                };
                let t = Scene { room: RoomModel { uploaded: false, ..s.room }, hub };
                lemma_same_people(s, t);
                lemma_game_started(t);
                lemma_same_people(s, room::checked(s));
            } else {
                lemma_same_people(s, s);
            }
        },
        room::Phase::WaitForReady { started } => {
            if room::all_ready(s.room, started) {
                lemma_game_started(s);
            } else {
                lemma_same_people(s, s);
            }
        },
        room::Phase::Playing { results, aborted } => {
            if room::all_done(s.room, results, aborted) {
                if s.room.cycle && !s.room.competition {
                    lemma_next_host(s.room.users, s.room.host);
                    let h = room::next_host(s.room.users, s.room.host);
                    let i = choose|i: int| 0 <= i < s.room.users.len() && s.room.users[i] == h;
                    assert(table::holds(s.hub.users, s.room.users[i]));
                }
                lemma_same_people(s, room::game_ended(s));
            } else {
                lemma_same_people(s, s);
            }
        },
    }
}

/// Who is left after one has gone was there before.
pub proof fn lemma_dropped(ids: Seq<i32>, id: i32)
    ensures
        forall|i: int|
            0 <= i < room::dropped(ids, id).len() ==> ids.contains(
                #[trigger] room::dropped(ids, id)[i],
            ) && room::dropped(ids, id)[i] != id,
    decreases ids.len(),
{
    if ids.len() > 0 {
        lemma_dropped(ids.drop_last(), id);
        assert forall|i: int| 0 <= i < room::dropped(ids, id).len() implies ids.contains(
            #[trigger] room::dropped(ids, id)[i],
        ) && room::dropped(ids, id)[i] != id by {
            let front = room::dropped(ids.drop_last(), id);
            if i < front.len() {
                assert(room::dropped(ids, id)[i] == front[i]);
                let j = choose|j: int|
                    0 <= j < ids.drop_last().len() && ids.drop_last()[j] == front[i];
                assert(ids[j] == front[i]);
            } else {
                assert(ids[ids.len() - 1] == room::dropped(ids, id)[i]);
            }
        }
    }
}

/// A room that someone has gone out of is good.
proof fn lemma_gone(s: Scene, u: UserModel)
    requires
        good(s),
        table::lookup(s.hub.users, u.id) == Some(u),
    ensures
        steady(s, room::gone(s, u)),
{
    let t = room::gone(s, u);
    lemma_user_changed(s.hub.users, u.id, UserModel { room: None, ..u });
    lemma_same_ids(s.hub.users, t.hub.users);
    lemma_dropped(s.room.users, u.id);
    lemma_dropped(s.room.monitors, u.id);
    assert forall|i: int| 0 <= i < t.room.users.len() implies table::holds(
        t.hub.users,
        #[trigger] t.room.users[i],
    ) by {
        if !u.monitor {
            assert(s.room.users.contains(room::dropped(s.room.users, u.id)[i]));
            let j = choose|j: int|
                0 <= j < s.room.users.len() && s.room.users[j] == t.room.users[i];
            assert(table::holds(s.hub.users, s.room.users[j]));
        } else {
            assert(table::holds(s.hub.users, s.room.users[i]));
        }
    }
    assert forall|i: int| 0 <= i < t.room.monitors.len() implies table::holds(
        t.hub.users,
        #[trigger] t.room.monitors[i],
    ) by {
        if u.monitor {
            assert(s.room.monitors.contains(room::dropped(s.room.monitors, u.id)[i]));
            let j = choose|j: int|
                0 <= j < s.room.monitors.len() && s.room.monitors[j] == t.room.monitors[i];
            assert(table::holds(s.hub.users, s.room.monitors[j]));
        } else {
            assert(table::holds(s.hub.users, s.room.monitors[i]));
        }
    }
}

/// Steps can be put together.
pub proof fn lemma_steady_trans(s: Scene, t: Scene, v: Scene)
    requires
        steady(s, t),
        steady(t, v),
        good(s),
    ensures
        steady(s, v),
{
    assert forall|i: int| 0 <= i < s.hub.users.len() implies s.hub.users[i].0 == (
    #[trigger] v.hub.users[i]).0 by {
        assert(t.hub.users[i].0 == v.hub.users[i].0);
    }
}

/// Leaving keeps a room good.
pub proof fn lemma_left(s: Scene, u: UserModel, pick: Option<i32>)
    requires
        good(s),
        table::lookup(s.hub.users, u.id) == Some(u),
        room::can_leave(s.room, u),
        room::valid_pick(pick, room::successors(s.room, u)),
    ensures
        steady(s, room::left(s, u, pick).0),
{
    let t = room::gone(s, u);
    lemma_gone(s, u);
    if s.room.host == Some(u.id) {
        let b = room::game_broken_off(t);
        lemma_same_people(t, b);
        lemma_steady_trans(s, t, b);
        if b.room.competition {
            let a = room::announced(b, MessageModel::NewHost { user: 0 });
            lemma_same_people(b, a);
            lemma_checked(a);
            lemma_steady_trans(s, b, a);
            lemma_steady_trans(s, a, room::checked(a));
        } else {
            if let Some(p) = pick {
                let c = room::crowned(b, p);
                let i = choose|i: int| 0 <= i < b.room.users.len() && b.room.users[i] == p;
                assert(table::holds(b.hub.users, b.room.users[i]));
                lemma_same_people(b, c);
                lemma_checked(c);
                lemma_steady_trans(s, b, c);
                lemma_steady_trans(s, c, room::checked(c));
            }
        }
    } else {
        lemma_checked(t);
        lemma_steady_trans(s, t, room::checked(t));
    }
}

/// Changing one room, in a step that keeps it good, keeps the world.
pub proof fn lemma_with_scene(w: WorldModel, h: u64, r: RoomModel, s: Scene)
    requires
        world::wf(w),
        table::lookup(w.rooms, h) == Some(r),
        steady(world::scene_in(w, r), s),
    ensures
        world::wf(world::with_scene(w, h, s)),
{
    let v = world::with_scene(w, h, s);
    table::lemma_find(w.rooms, h);
    lemma_same_ids(w.hub.users, s.hub.users);
    table::lemma_put_distinct(w.rooms, h, s.room);
    assert forall|i: int| 0 <= i < v.rooms.len() implies (#[trigger] v.rooms[i]).0
        < v.next_room && world::known(v.rooms[i].1, v.hub.users) by {
        assert(w.rooms[i].0 < w.next_room);
        assert(world::known(w.rooms[i].1, w.hub.users));
    }
}

/// A room that is looked up in a good world is good.
pub proof fn lemma_scene_good(w: WorldModel, h: u64)
    requires
        world::wf(w),
    ensures
        table::lookup(w.rooms, h) matches Some(r) ==> good(world::scene_in(w, r)) && h
            < w.next_room,
{
    table::lemma_find(w.rooms, h);
    if table::holds(w.rooms, h) {
        let i = table::find(w.rooms, h);
        assert(w.rooms[i].0 < w.next_room);
        assert(world::known(w.rooms[i].1, w.hub.users));
    }
}

/// Taking a room out keeps the world.
pub proof fn lemma_room_removed(w: WorldModel, h: u64)
    requires
        world::wf(w),
    ensures
        world::wf(WorldModel { rooms: table::without(w.rooms, h), ..w }),
{
    if table::holds(w.rooms, h) {
        let k = table::find(w.rooms, h);
        let v = WorldModel { rooms: w.rooms.remove(k), ..w };
        table::lemma_find(w.rooms, h);
        table::lemma_without_lookup(w.rooms, h, h);
        assert forall|i: int| 0 <= i < v.rooms.len() implies (#[trigger] v.rooms[i]).0
            < v.next_room && world::known(v.rooms[i].1, v.hub.users) by {
            let j = if i < k {
                i
            } else {
                i + 1
            };
            assert(v.rooms[i] == w.rooms[j]);
            assert(w.rooms[j].0 < w.next_room);
            assert(world::known(w.rooms[j].1, w.hub.users));
        }
    }
}

/// Leaving a room keeps the world.
pub proof fn law_left_room(w: WorldModel, uid: i32, pick: Option<i32>)
    requires
        world::wf(w),
        world::can_leave(w, uid),
        room::valid_pick(pick, world::successors(w, uid)),
    ensures
        world::wf(world::left_room(w, uid, pick)),
{
    world::lemma_user_id(w.hub.users, uid);
    if let (Some(u), Some((h, r))) = (world::user_of(w, uid), world::room_of(w, uid)) {
        lemma_scene_good(w, h);
        let (s, drop) = room::left(world::scene_in(w, r), u, pick);
        lemma_left(world::scene_in(w, r), u, pick);
        lemma_with_scene(w, h, r, s);
        let t = world::with_scene(w, h, s);
        table::lemma_put_lookup(w.rooms, h, s.room, h);
        let v = if drop {
            world::unlisted(t, h)
        } else {
            t
        };
        if drop {
            let q = RoomModel { listed: false, ..s.room };
            lemma_scene_good(t, h);
            lemma_same_people(world::scene_in(t, s.room), world::scene_in(t, q));
            lemma_with_scene(t, h, s.room, world::scene_in(t, q));
            assert(v =~= world::with_scene(t, h, world::scene_in(t, q)));
        }
        lemma_room_removed(v, h);
    }
}

/// A world that differs only in its effects, its charts and its recorders.
pub proof fn lemma_same_rooms(w: WorldModel, v: WorldModel)
    requires
        world::wf(w),
        v.hub.users == w.hub.users,
        v.rooms == w.rooms,
        v.next_room == w.next_room,
    ensures
        world::wf(v),
{
}

/// Someone who is known comes into a room.
pub proof fn lemma_joined(s: Scene, uid: i32, monitor: bool, u: UserModel)
    requires
        good(s),
        table::holds(s.hub.users, uid),
        u.id == uid,
    ensures
        steady(
            s,
            Scene {
                room: room::added(s.room, uid, monitor).0,
                hub: hub::user_set(s.hub, uid, u),
            },
        ),
{
    let t = Scene {
        room: room::added(s.room, uid, monitor).0,
        hub: hub::user_set(s.hub, uid, u),
    };
    lemma_user_changed(s.hub.users, uid, u);
    lemma_same_ids(s.hub.users, t.hub.users);
    assert forall|i: int| 0 <= i < t.room.users.len() implies table::holds(
        t.hub.users,
        #[trigger] t.room.users[i],
    ) by {
        if i < s.room.users.len() {
            assert(table::holds(s.hub.users, s.room.users[i]));
        }
    }
    assert forall|i: int| 0 <= i < t.room.monitors.len() implies table::holds(
        t.hub.users,
        #[trigger] t.room.monitors[i],
    ) by {
        if i < s.room.monitors.len() {
            assert(table::holds(s.hub.users, s.room.monitors[i]));
        }
    }
}

/// A new room keeps the world.
proof fn lemma_room_created(w: WorldModel, uid: i32, id: Seq<char>, taken: Seq<char>)
    requires
        world::wf(w),
        world::user_of(w, uid) is Some,
        w.next_room < u64::MAX,
    ensures
        world::wf(session::room_created(w, uid, id, taken).0),
{
    reveal(session::room_created);
    world::lemma_user_id(w.hub.users, uid);
    let v = session::room_created(w, uid, id, taken).0;
    let u = world::user_of(w, uid)->Some_0;
    if u.room is None && world::find_listed(w.rooms, id) is None {
        let h = w.next_room;
        lemma_user_changed(w.hub.users, uid, UserModel { room: Some(h), ..u });
        lemma_same_ids(w.hub.users, v.hub.users);
        assert forall|i: int| 0 <= i < w.rooms.len() implies (#[trigger] w.rooms[i]).0 != h by {
            assert(w.rooms[i].0 < w.next_room);
        }
        table::lemma_find_is(w.rooms, h, w.rooms.len() as int);
        table::lemma_put_distinct(w.rooms, h, room::new_room(id, Some(uid), Some(uid)));
        assert forall|i: int| 0 <= i < v.rooms.len() implies (#[trigger] v.rooms[i]).0
            < v.next_room && world::known(v.rooms[i].1, v.hub.users) by {
            if i < w.rooms.len() {
                assert(v.rooms[i] == w.rooms[i]);
                assert(w.rooms[i].0 < w.next_room);
                assert(world::known(w.rooms[i].1, w.hub.users));
            }
        }
    }
}

/// Joining a room keeps the world.
proof fn lemma_room_joined(
    w: WorldModel,
    uid: i32,
    id: Seq<char>,
    monitor: bool,
    settings: Settings,
    texts: Texts,
)
    requires
        world::wf(w),
        world::user_of(w, uid) is Some,
    ensures
        world::wf(session::room_joined(w, uid, id, monitor, settings, texts).0),
{
    reveal(session::room_joined);
    world::lemma_user_id(w.hub.users, uid);
    world::lemma_listed(w.rooms, id);
    let u = world::user_of(w, uid)->Some_0;
    let v = session::room_joined(w, uid, id, monitor, settings, texts).0;
    if session::join_refusal(w, u, id, monitor, settings, texts) is None {
        let (h, r) = world::find_listed(w.rooms, id)->Some_0;
        lemma_scene_good(w, h);
        let s = session::join_scene(w, r, u, monitor, settings.web_port);
        let before = world::scene_in(w, r);
        lemma_joined(before, uid, monitor, UserModel { monitor, ..u });
        let mid = Scene {
            room: room::added(r, uid, monitor).0,
            hub: hub::user_set(w.hub, uid, UserModel { monitor, ..u }),
        };
        lemma_same_people(mid, s);
        lemma_steady_trans(before, mid, s);
        let last = UserModel { monitor, room: Some(h), ..u };
        lemma_same_ids(before.hub.users, s.hub.users);
        lemma_user_changed(s.hub.users, uid, last);
        let t = Scene { room: s.room, hub: hub::user_set(s.hub, uid, last) };
        lemma_same_people(s, t);
        lemma_steady_trans(before, s, t);
        lemma_with_scene(w, h, r, t);
        lemma_same_rooms(world::with_scene(w, h, t), v);
    }
}

/// Changing the room of number `h`, with the same people in it, keeps the world.
proof fn lemma_room_step(w: WorldModel, h: u64, r: RoomModel, s: Scene)
    requires
        world::wf(w),
        table::lookup(w.rooms, h) == Some(r),
        same_ids(w.hub.users, s.hub.users),
        s.room.users == r.users,
        s.room.monitors == r.monitors,
        s.room.host == r.host,
    ensures
        world::wf(world::with_scene(w, h, s)),
{
    lemma_scene_good(w, h);
    lemma_same_people(world::scene_in(w, r), s);
    lemma_with_scene(w, h, r, s);
}

/// Changing the room of number `h`, with the same people in it, and then checking whether
/// everybody is ready, or done, keeps the world.
proof fn lemma_room_checked(w: WorldModel, h: u64, r: RoomModel, s: Scene)
    requires
        world::wf(w),
        table::lookup(w.rooms, h) == Some(r),
        same_ids(w.hub.users, s.hub.users),
        s.room.users == r.users,
        s.room.monitors == r.monitors,
        s.room.host == r.host,
        !room::no_successor(s.room),
    ensures
        world::wf(world::with_scene(w, h, room::checked(s))),
{
    lemma_scene_good(w, h);
    let before = world::scene_in(w, r);
    lemma_same_people(before, s);
    lemma_checked(s);
    lemma_steady_trans(before, s, room::checked(s));
    lemma_with_scene(w, h, r, room::checked(s));
}

/// The same users are the same.
pub proof fn lemma_same_refl(a: Seq<(i32, UserModel)>)
    ensures
        same_ids(a, a),
{
}

/// A room that a user is in is one that can be looked up.
proof fn lemma_room_of(w: WorldModel, uid: i32)
    ensures
        world::room_of(w, uid) matches Some((h, r)) ==> table::lookup(w.rooms, h) == Some(r),
{
}

/// Touches and notes keep the world.
proof fn lemma_played_on(w: WorldModel, uid: i32, cmd: ClientCommandModel)
    requires
        world::wf(w),
        cmd is Touches || cmd is Judges,
    ensures
        cmd matches ClientCommandModel::Touches { frames } ==> world::wf(
            session::touched(w, uid, frames),
        ),
        cmd matches ClientCommandModel::Judges { judges } ==> world::wf(
            session::judged(w, uid, judges),
        ),
{
    reveal(session::touched);
    reveal(session::judged);
    world::lemma_user_id(w.hub.users, uid);
    if let (Some(u), Some((h, r))) = (world::user_of(w, uid), world::room_of(w, uid)) {
        match cmd {
            ClientCommandModel::Touches { frames } => {
                let v = session::touched(w, uid, frames);
                if r.live && frames.len() > 0 {
                    lemma_user_changed(
                        w.hub.users,
                        uid,
                        UserModel { game_time: frames.last().time, ..u },
                    );
                    lemma_room_step(w, h, r, Scene { room: r, hub: v.hub });
                    table::lemma_put_same(w.rooms, h, r);
                    lemma_same_rooms(world::with_scene(w, h, Scene { room: r, hub: v.hub }), v);
                }
            },
            ClientCommandModel::Judges { judges } => {
                let s = room::notes_hit(world::scene_in(w, r), uid, u.name, judges);
                lemma_same_refl(w.hub.users);
                lemma_room_step(w, h, r, s);
                lemma_same_rooms(world::with_scene(w, h, s), session::judged(w, uid, judges));
            },
            _ => {},
        }
    }
}

/// What a host decides about their room keeps the world.
proof fn lemma_host_commands(
    w: WorldModel,
    uid: i32,
    cmd: ClientCommandModel,
    settings: Settings,
    texts: Texts,
)
    requires
        world::wf(w),
        session::accepts(w, uid, cmd),
        cmd is LockRoom || cmd is CycleRoom || cmd is SelectLocalChart || cmd is SelectOnlineChart
            || cmd is SendChart || cmd is CancelLocalChart || cmd is RequestStart,
    ensures
        world::wf(session::processed(w, uid, cmd, settings, texts, None).0),
{
    lemma_same_refl(w.hub.users);
    lemma_room_of(w, uid);
    match cmd {
        ClientCommandModel::LockRoom { lock } => {
            reveal(session::locked);
            if let Ok((h, r)) = session::as_host(w, uid) {
                lemma_room_step(
                    w,
                    h,
                    r,
                    room::announced(
                        world::scene_in(w, RoomModel { locked: lock, ..r }),
                        MessageModel::LockRoom { lock },
                    ),
                );
            }
        },
        ClientCommandModel::CycleRoom { cycle } => {
            reveal(session::cycled);
            if let Ok((h, r)) = session::as_host(w, uid) {
                lemma_room_step(
                    w,
                    h,
                    r,
                    room::announced(
                        world::scene_in(w, RoomModel { cycle, ..r }),
                        MessageModel::CycleRoom { cycle },
                    ),
                );
            }
        },
        ClientCommandModel::SelectLocalChart { id, name } => {
            reveal(session::local_chosen);
            if let Some((h, r)) = world::room_of(w, uid) {
                if r.phase is SelectChart && r.host == Some(uid) {
                    let s = room::state_changed(
                        room::announced(
                            room::broadcast_to(
                                world::scene_in(
                                    w,
                                    RoomModel {
                                        local_chart: Some((id, name)),
                                        phase: room::Phase::LocalChart { started: Set::empty() },
                                        ..r
                                    },
                                ),
                                ServerCommandModel::ChangeLocalChart { local: true, chart_id: id },
                            ),
                            MessageModel::SelectLocalChart { user: uid, name, id },
                        ),
                    );
                    lemma_room_step(w, h, r, s);
                }
            }
        },
        ClientCommandModel::SelectOnlineChart { id } => {
            reveal(session::online_choice);
            if let Ok((h, r)) = session::as_host(w, uid) {
                if r.phase is LocalChart {
                    let s = Scene {
                        room: RoomModel {
                            local_chart: None,
                            phase: room::Phase::SelectChart,
                            ..r
                        },
                        hub: room::broadcast_to(
                            world::scene_in(w, r),
                            ServerCommandModel::ChangeLocalChart {
                                local: false,
                                chart_id: Seq::empty(),
                            },
                        ).hub,
                    };
                    lemma_room_step(w, h, r, s);
                }
            }
        },
        ClientCommandModel::SendChart { addr, port } => {
            reveal(session::chart_sent);
            if let (Ok((h, r)), Some(u)) = (session::as_host(w, uid), world::user_of(w, uid)) {
                if let Some((chart_id, chart_name)) = r.local_chart {
                    let s = room::announced(
                        world::scene_in(w, r),
                        MessageModel::SendChart { user: uid },
                    );
                    let t = Scene {
                        hub: hub::emitted(
                            s.hub,
                            hub::EffectModel::Send {
                                to: session::receivers(r.users, uid),
                                cmd: ServerCommandModel::StartDownload {
                                    host_id: uid,
                                    host_name: u.name,
                                    addr: settings.public_ip@,
                                    port: match settings.web_port {
                                        Some(p) => p,
                                        None => 0,
                                    },
                                    chart_id,
                                    chart_name,
                                },
                            },
                        ),
                        ..s
                    };
                    lemma_room_checked(w, h, r, t);
                }
            }
        },
        ClientCommandModel::CancelLocalChart => {
            reveal(session::local_canceled);
            if let Ok((h, r)) = session::as_host(w, uid) {
                let v = session::local_canceled(w, uid).0;
                table::lemma_put_lookup(w.rooms, h, r, h);
                let hub = match r.local_chart {
                    Some((id, _)) => hub::HubModel {
                        charts: table::without(w.hub.charts, id),
                        ..w.hub
                    },
                    None => w.hub,
                };
                let room = RoomModel {
                    uploaded: false,
                    phase: if r.phase is LocalChart {
                        room::Phase::LocalChart { started: Set::empty() }
                    } else {
                        r.phase
                    },
                    ..r
                };
                lemma_room_step(
                    w,
                    h,
                    r,
                    room::state_changed(
                        room::broadcast_to(
                            Scene { room, hub },
                            ServerCommandModel::LocalChartCanceled,
                        ),
                    ),
                );
            }
        },
        ClientCommandModel::RequestStart => {
            reveal(session::start_requested);
            if let Ok((h, r)) = session::as_host(w, uid) {
                if r.phase is LocalChart {
                    lemma_same_rooms(
                        w,
                        session::start_requested(w, uid, texts.start_no_chart_selected@).0,
                    );
                } else if r.chart is Some {
                    lemma_times(w.hub.users, r.users);
                    lemma_room_checked(w, h, r, session::asked_scene(w, r, uid, h));
                }
            }
        },
        _ => {},
    }
}

/// What a member does in their room keeps the world.
proof fn lemma_member_commands(
    w: WorldModel,
    uid: i32,
    cmd: ClientCommandModel,
    settings: Settings,
    texts: Texts,
)
    requires
        world::wf(w),
        session::accepts(w, uid, cmd),
        cmd is Chat || cmd is DownloadReady || cmd is UploadChart || cmd is CancelDownloadReady
            || cmd is Ready || cmd is CancelReady || cmd is Abort,
    ensures
        world::wf(session::processed(w, uid, cmd, settings, texts, None).0),
{
    lemma_same_refl(w.hub.users);
    lemma_room_of(w, uid);
    match cmd {
        ClientCommandModel::Chat { message } => {
            reveal(session::said);
            if let Some((h, r)) = world::room_of(w, uid) {
                lemma_room_step(
                    w,
                    h,
                    r,
                    room::announced(
                        world::scene_in(w, r),
                        MessageModel::Chat { user: uid, content: message },
                    ),
                );
            }
        },
        ClientCommandModel::DownloadReady => {
            reveal(session::downloaded);
            if let Some((h, r)) = world::room_of(w, uid) {
                if let room::Phase::LocalChart { started } = r.phase {
                    lemma_room_checked(
                        w,
                        h,
                        r,
                        room::announced(
                            world::scene_in(
                                w,
                                RoomModel {
                                    phase: room::Phase::LocalChart { started: started.insert(uid) },
                                    ..r
                                },
                            ),
                            MessageModel::DownloadReady { user: uid },
                        ),
                    );
                }
            }
        },
        ClientCommandModel::UploadChart { id, data } => {
            reveal(session::uploaded);
            let v = session::uploaded(w, uid, id, data);
            if let Some((h, r)) = world::room_of(w, uid) {
                let s = world::scene_in(w, RoomModel { uploaded: true, ..r });
                lemma_room_step(w, h, r, s);
                lemma_same_rooms(world::with_scene(w, h, s), v);
            } else {
                lemma_same_rooms(w, v);
            }
        },
        ClientCommandModel::CancelDownloadReady => {
            reveal(session::download_canceled);
            if let Some((h, r)) = world::room_of(w, uid) {
                if let room::Phase::LocalChart { started } = r.phase {
                    let s = world::scene_in(
                        w,
                        RoomModel {
                            phase: room::Phase::LocalChart { started: started.remove(uid) },
                            ..r
                        },
                    );
                    lemma_room_step(w, h, r, s);
                    lemma_same_rooms(
                        world::with_scene(w, h, s),
                        session::download_canceled(w, uid).0,
                    );
                }
            }
        },
        ClientCommandModel::Ready => {
            reveal(session::readied);
            if let Some((h, r)) = world::room_of(w, uid) {
                if let room::Phase::WaitForReady { started } = r.phase {
                    lemma_room_checked(
                        w,
                        h,
                        r,
                        room::announced(
                            world::scene_in(
                                w,
                                RoomModel {
                                    phase: room::Phase::WaitForReady {
                                        started: started.insert(uid),
                                    },
                                    ..r
                                },
                            ),
                            MessageModel::Ready { user: uid },
                        ),
                    );
                }
            }
        },
        ClientCommandModel::CancelReady => {
            reveal(session::ready_canceled);
            if let Some((h, r)) = world::room_of(w, uid) {
                if let room::Phase::WaitForReady { started } = r.phase {
                    let s = world::scene_in(
                        w,
                        RoomModel {
                            phase: room::Phase::WaitForReady { started: started.remove(uid) },
                            ..r
                        },
                    );
                    let t = room::announced(s, MessageModel::CancelGame { user: uid });
                    lemma_room_step(
                        w,
                        h,
                        r,
                        room::state_changed(
                            Scene {
                                room: RoomModel { phase: room::Phase::SelectChart, ..t.room },
                                ..t
                            },
                        ),
                    );
                    lemma_room_step(
                        w,
                        h,
                        r,
                        room::announced(s, MessageModel::CancelReady { user: uid }),
                    );
                }
            }
        },
        ClientCommandModel::Abort => {
            reveal(session::aborted);
            if let Some((h, r)) = world::room_of(w, uid) {
                if let room::Phase::Playing { results, aborted } = r.phase {
                    if session::still_playing(r, uid) {
                        lemma_room_checked(
                            w,
                            h,
                            r,
                            room::announced(
                                world::scene_in(
                                    w,
                                    RoomModel {
                                        phase: room::Phase::Playing {
                                            results,
                                            aborted: aborted.insert(uid),
                                        },
                                        ..r
                                    },
                                ),
                                MessageModel::Abort { user: uid },
                            ),
                        );
                    }
                }
            }
        },
        _ => {},
    }
}

/// Every command keeps the world: users and rooms stand once, under their own numbers, and
/// rooms refer only to users who are known.
pub proof fn law_processed(
    w: WorldModel,
    uid: i32,
    cmd: ClientCommandModel,
    settings: Settings,
    texts: Texts,
    pick: Option<i32>,
)
    requires
        world::wf(w),
        session::accepts(w, uid, cmd),
        room::valid_pick(pick, world::successors(w, uid)),
    ensures
        world::wf(session::processed(w, uid, cmd, settings, texts, pick).0),
{
    match cmd {
        ClientCommandModel::Touches { .. } | ClientCommandModel::Judges { .. } => {
            lemma_played_on(w, uid, cmd);
        },
        ClientCommandModel::CreateRoom { id } => {
            lemma_room_created(w, uid, id, texts.create_id_occupied@);
        },
        ClientCommandModel::JoinRoom { id, monitor } => {
            lemma_room_joined(w, uid, id, monitor, settings, texts);
        },
        ClientCommandModel::LeaveRoom => {
            reveal(session::room_left);
            law_left_room(w, uid, pick);
            lemma_same_rooms(
                world::left_room(w, uid, pick),
                session::room_left(w, uid, pick).0,
            );
        },
        ClientCommandModel::LockRoom { .. } | ClientCommandModel::CycleRoom { .. }
        | ClientCommandModel::SelectLocalChart { .. }
        | ClientCommandModel::SelectOnlineChart { .. } | ClientCommandModel::SendChart { .. }
        | ClientCommandModel::CancelLocalChart | ClientCommandModel::RequestStart => {
            lemma_host_commands(w, uid, cmd, settings, texts);
        },
        ClientCommandModel::Chat { .. } | ClientCommandModel::DownloadReady
        | ClientCommandModel::UploadChart { .. } | ClientCommandModel::CancelDownloadReady
        | ClientCommandModel::Ready | ClientCommandModel::CancelReady
        | ClientCommandModel::Abort => {
            lemma_member_commands(w, uid, cmd, settings, texts);
        },
        _ => {},
    }
}

/// A chart that was fetched keeps the world.
pub proof fn law_chart_chosen(w: WorldModel, uid: i32, h: u64, chart: ChartModel, online: bool)
    requires
        world::wf(w),
    ensures
        world::wf(session::chart_chosen(w, uid, h, chart, online)),
{
    reveal(session::chart_chosen);
    lemma_same_refl(w.hub.users);
    if let Some(r) = table::lookup(w.rooms, h) {
        let s = room::announced(
            world::scene_in(w, r),
            MessageModel::SelectChart { user: uid, name: chart.name, id: chart.id },
        );
        let t = room::state_changed(
            Scene { room: RoomModel { chart: Some(chart), ..s.room }, ..s },
        );
        lemma_room_step(w, h, r, t);
        lemma_same_rooms(
            world::with_scene(w, h, t),
            session::chart_chosen(w, uid, h, chart, online),
        );
    }
}

/// A result that was fetched keeps the world.
pub proof fn law_finished(w: WorldModel, uid: i32, h: u64, record: Record)
    requires
        world::wf(w),
        !session::record_stuck(w, uid, h, record),
    ensures
        world::wf(session::finished(w, uid, h, record).0),
{
    reveal(session::finished);
    lemma_same_refl(w.hub.users);
    if let Some(r) = table::lookup(w.rooms, h) {
        let s = room::announced(
            world::scene_in(w, r),
            MessageModel::Played {
                user: uid,
                score: record.score,
                accuracy: record.accuracy,
                full_combo: record.full_combo,
            },
        );
        lemma_room_step(w, h, r, s);
        if let room::Phase::Playing { results, aborted } = r.phase {
            let after = results.insert(uid, record);
            let t = Scene {
                room: RoomModel {
                    phase: room::Phase::Playing { results: after, aborted },
                    ..s.room
                },
                ..s
            };
            lemma_room_step(w, h, r, t);
            if record.player == uid && session::still_playing(r, uid) {
                lemma_room_checked(w, h, r, t);
                let v = world::with_scene(w, h, room::checked(t));
                lemma_same_rooms(
                    v,
                    world::emitted(v, hub::EffectModel::SaveReplays { room: r.id }),
                );
            }
        }
    }
}

/// One who watches is among the users, and nobody is lost.
pub proof fn lemma_with_watcher(users: Seq<(i32, UserModel)>, id: i32, name: Seq<char>)
    ensures
        table::holds(session::with_watcher(users, id, name), id),
        world::ids_ok(users) ==> world::ids_ok(session::with_watcher(users, id, name)),
        table::distinct(users) ==> table::distinct(session::with_watcher(users, id, name)),
        forall|i: i32|
            table::holds(users, i) ==> #[trigger] table::holds(
                session::with_watcher(users, id, name),
                i,
            ),
{
    let u = UserModel { monitor: true, ..hub::new_user(id, name, Seq::empty()) };
    let after = session::with_watcher(users, id, name);
    if !table::holds(users, id) {
        table::lemma_put_lookup(users, id, u, id);
        assert forall|i: i32| table::holds(users, i) implies #[trigger] table::holds(
            after,
            i,
        ) by {
            table::lemma_put_lookup(users, id, u, i);
        }
        if table::distinct(users) {
            table::lemma_put_distinct(users, id, u);
        }
    }
}

/// One who watches, among the users, keeps the world.
proof fn lemma_watcher_added(w: WorldModel, id: i32, name: Seq<char>)
    requires
        world::wf(w),
    ensures
        world::wf(
            WorldModel {
                hub: hub::HubModel {
                    users: session::with_watcher(w.hub.users, id, name),
                    ..w.hub
                },
                ..w
            },
        ),
{
    lemma_with_watcher(w.hub.users, id, name);
    let v = WorldModel {
        hub: hub::HubModel { users: session::with_watcher(w.hub.users, id, name), ..w.hub },
        ..w
    };
    assert forall|i: int| 0 <= i < v.rooms.len() implies world::known(
        (#[trigger] v.rooms[i]).1,
        v.hub.users,
    ) by {
        assert(world::known(w.rooms[i].1, w.hub.users));
    }
}

/// Someone who watches comes into a room, which keeps the world.
proof fn lemma_watcher_in(w: WorldModel, h: u64, r: RoomModel, u: UserModel, live: bool)
    requires
        world::wf(w),
        table::lookup(w.rooms, h) == Some(r),
        table::holds(w.hub.users, u.id),
    ensures
        world::wf(
            world::with_scene(
                w,
                h,
                session::watcher_in(
                    Scene {
                        room: RoomModel { live, ..r },
                        hub: hub::user_set(w.hub, u.id, u),
                    },
                    u,
                ),
            ),
        ),
{
    lemma_scene_good(w, h);
    let before = world::scene_in(w, r);
    lemma_joined(before, u.id, true, u);
    let mid = Scene {
        room: room::added(r, u.id, true).0,
        hub: hub::user_set(w.hub, u.id, u),
    };
    let s = session::watcher_in(
        Scene { room: RoomModel { live, ..r }, hub: hub::user_set(w.hub, u.id, u) },
        u,
    );
    lemma_same_people(mid, s);
    lemma_steady_trans(before, mid, s);
    lemma_with_scene(w, h, r, s);
}

/// Those who watch every room come into a new one, which keeps the world.
pub proof fn law_watchers_joined(w: WorldModel, h: u64, creator: i32)
    requires
        world::wf(w),
    ensures
        world::wf(session::watcher_joined(w, h, creator)),
        world::wf(session::watchers_joined(w, h, creator)),
{
    let id = session::WATCHER_ID;
    lemma_watcher_added(w, id, "Monitor"@);
    lemma_with_watcher(w.hub.users, id, "Monitor"@);
    let v = WorldModel {
        hub: hub::HubModel {
            users: session::with_watcher(w.hub.users, id, "Monitor"@),
            ..w.hub
        },
        ..w
    };
    world::lemma_user_id(v.hub.users, id);
    let a = session::watcher_joined(w, h, creator);
    if let (Some(r), Some(u)) = (table::lookup(v.rooms, h), world::user_of(v, id)) {
        if !r.live && !r.competition {
            let m = UserModel { monitor: true, ..u };
            lemma_watcher_in(v, h, r, m, true);
            let t = world::with_scene(
                v,
                h,
                session::watcher_in(
                    Scene {
                        room: RoomModel { live: true, ..r },
                        hub: hub::user_set(v.hub, id, m),
                    },
                    m,
                ),
            );
            lemma_same_rooms(t, a);
        }
    }
    let rid = crate::replay::RECORDER_BOT_USER_ID;
    let name = crate::replay::recorder_name();
    lemma_watcher_added(a, rid, name);
    lemma_with_watcher(a.hub.users, rid, name);
    let b = WorldModel {
        hub: hub::HubModel { users: session::with_watcher(a.hub.users, rid, name), ..a.hub },
        ..a
    };
    world::lemma_user_id(b.hub.users, rid);
    let c = session::recorder_joined(a, h);
    if let (Some(r), Some(u)) = (table::lookup(b.rooms, h), world::user_of(b, rid)) {
        lemma_watcher_in(b, h, r, u, r.live);
        table::lemma_put_same(b.hub.users, rid, u);
        assert(RoomModel { live: r.live, ..r } == r);
        assert(hub::user_set(b.hub, rid, u) == b.hub);
    }
    lemma_same_rooms(c, session::watchers_joined(w, h, creator));
}

/// Someone who watches a room is ready for its game, which keeps the world.
pub proof fn law_watcher_readied(w: WorldModel, h: u64, id: i32)
    requires
        world::wf(w),
    ensures
        world::wf(session::watcher_readied(w, h, id)),
{
    lemma_same_refl(w.hub.users);
    if let Some(r) = table::lookup(w.rooms, h) {
        if let room::Phase::WaitForReady { started } = r.phase {
            let s = room::announced(world::scene_in(w, r), MessageModel::Ready { user: id });
            lemma_room_checked(
                w,
                h,
                r,
                Scene {
                    room: RoomModel {
                        phase: room::Phase::WaitForReady { started: started.insert(id) },
                        ..s.room
                    },
                    ..s
                },
            );
        }
    }
}

} // verus!
