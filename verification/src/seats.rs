//! What every command keeps as well: whoever is in a room is among its people.
use crate::admin;
use crate::command::{ClientCommandModel, MessageModel, ServerCommandModel};
use crate::hub;
use crate::hub::{ChartModel, Record, UserModel};
use crate::order;
use crate::presence;
use crate::room;
use crate::room::{RoomModel, Scene};
use crate::server::ServerModel;
use crate::session;
use crate::session::{Settings, Texts};
use crate::table;
use crate::tidy;
use crate::upkeep;
use crate::world;
use crate::world::WorldModel;
use vstd::prelude::*;

verus! {

/// The room that a user is in.
pub open spec fn room_in(users: Seq<(i32, UserModel)>, id: i32) -> Option<u64> {
    match table::lookup(users, id) {
        Some(u) => u.room,
        None => None,
    }
}

/// Whether someone is among the people of a room.
pub open spec fn among(r: RoomModel, id: i32) -> bool {
    r.users.contains(id) || r.monitors.contains(id)
}

/// Whether a user, if they are in a room, is among its people.
pub open spec fn in_place(w: WorldModel, id: i32) -> bool {
    room_in(w.hub.users, id) matches Some(h) ==> (table::lookup(w.rooms, h) matches Some(r)
        && among(r, id))
}

/// Whoever is in a room is among its people.
pub open spec fn seated(w: WorldModel) -> bool {
    forall|id: i32| #[trigger] in_place(w, id)
}

/// Nobody goes to another room.
pub open spec fn unmoved(a: Seq<(i32, UserModel)>, b: Seq<(i32, UserModel)>) -> bool {
    forall|id: i32| #[trigger] room_in(b, id) == room_in(a, id)
}

/// Changing one room keeps everybody's place if nobody comes into a room, and everybody who
/// stays in that one is still among its people.
proof fn lemma_seats(w: WorldModel, v: WorldModel, h: u64, r: RoomModel, q: RoomModel)
    requires
        seated(w),
        table::lookup(w.rooms, h) == Some(r),
        v.rooms == table::put(w.rooms, h, q),
        forall|id: i32| #[trigger]
            room_in(v.hub.users, id) is Some ==> room_in(v.hub.users, id) == room_in(
                w.hub.users,
                id,
            ),
        forall|id: i32| #[trigger]
            room_in(v.hub.users, id) == Some(h) && among(r, id) ==> among(q, id),
    ensures
        seated(v),
{
    assert forall|id: i32| #[trigger] in_place(v, id) by {
        assert(in_place(w, id));
        if let Some(g) = room_in(v.hub.users, id) {
            table::lemma_put_lookup(w.rooms, h, q, g);
        }
    }
}

/// Changing one room, but for its people, keeps everybody's place.
proof fn lemma_same_seats(w: WorldModel, v: WorldModel, h: u64, r: RoomModel, q: RoomModel)
    requires
        seated(w),
        table::lookup(w.rooms, h) == Some(r),
        v.rooms == table::put(w.rooms, h, q),
        unmoved(w.hub.users, v.hub.users),
        q.users == r.users,
        q.monitors == r.monitors,
    ensures
        seated(v),
{
    lemma_seats(w, v, h, r, q);
}

/// A world in which nobody moved and every room is as it was.
proof fn lemma_same_rooms(w: WorldModel, v: WorldModel)
    requires
        seated(w),
        v.rooms == w.rooms,
        unmoved(w.hub.users, v.hub.users),
    ensures
        seated(v),
{
    assert forall|id: i32| #[trigger] in_place(v, id) by {
        assert(in_place(w, id));
        assert(room_in(v.hub.users, id) == room_in(w.hub.users, id));
    }
}

/// A user who changes, but stays where they are, moves nobody.
proof fn lemma_changed(users: Seq<(i32, UserModel)>, id: i32, u: UserModel)
    requires
        u.room == room_in(users, id),
    ensures
        unmoved(users, table::put(users, id, u)),
{
    assert forall|other: i32| #[trigger]
        room_in(table::put(users, id, u), other) == room_in(users, other) by {
        table::lemma_put_lookup(users, id, u, other);
    }
}

/// Setting back the times of games moves nobody.
proof fn lemma_times(users: Seq<(i32, UserModel)>, ids: Seq<i32>)
    ensures
        unmoved(users, hub::times_reset(users, ids)),
    decreases ids.len(),
{
    if ids.len() > 0 {
        lemma_times(users, ids.drop_last());
        let mid = hub::times_reset(users, ids.drop_last());
        if let Some(u) = table::lookup(mid, ids.last()) {
            lemma_changed(mid, ids.last(), UserModel { game_time: hub::NO_GAME_TIME, ..u });
        }
        assert forall|id: i32| #[trigger]
            room_in(hub::times_reset(users, ids), id) == room_in(users, id) by {
            assert(room_in(mid, id) == room_in(users, id));
        }
    }
}

/// Checking whether everybody is ready, or done, moves nobody.
proof fn lemma_checked(s: Scene)
    ensures
        unmoved(s.hub.users, room::checked(s).hub.users),
        room::checked(s).room.users == s.room.users,
        room::checked(s).room.monitors == s.room.monitors,
{
    lemma_times(s.hub.users, s.room.users);
}

/// Checking whether everybody in a room is ready, or done, keeps everybody's place.
proof fn lemma_checked_seats(w: WorldModel, v: WorldModel, h: u64, r: RoomModel, s: Scene)
    requires
        seated(w),
        table::lookup(w.rooms, h) == Some(r),
        unmoved(w.hub.users, s.hub.users),
        s.room.users == r.users,
        s.room.monitors == r.monitors,
        v.rooms == table::put(w.rooms, h, room::checked(s).room),
        v.hub.users == room::checked(s).hub.users,
    ensures
        seated(v),
{
    lemma_checked(s);
    assert forall|id: i32| #[trigger] room_in(v.hub.users, id) == room_in(w.hub.users, id) by {
        assert(room_in(s.hub.users, id) == room_in(w.hub.users, id));
    }
    lemma_same_seats(w, v, h, r, room::checked(s).room);
}

/// Someone leaves a room: they are in none, and everybody else stays where they are.
proof fn lemma_left(s: Scene, u: UserModel, pick: Option<i32>)
    ensures
        room_in(room::left(s, u, pick).0.hub.users, u.id) is None,
        forall|id: i32|
            id != u.id ==> #[trigger] room_in(room::left(s, u, pick).0.hub.users, id) == room_in(
                s.hub.users,
                id,
            ),
        forall|id: i32|
            id != u.id && among(s.room, id) ==> #[trigger] among(
                room::left(s, u, pick).0.room,
                id,
            ),
{
    let t = room::left(s, u, pick).0;
    let g = room::gone(s, u);
    let b = room::game_broken_off(g);
    let c = if s.room.host == Some(u.id) {
        if b.room.competition {
            room::announced(b, MessageModel::NewHost { user: 0 })
        } else {
            match pick {
                Some(p) => room::crowned(b, p),
                None => b,
            }
        }
    } else {
        g
    };
    lemma_checked(c);
    let v = UserModel { room: None, ..u };
    table::lemma_put_lookup(s.hub.users, u.id, v, u.id);
    assert(room_in(g.hub.users, u.id) is None);
    assert(room_in(t.hub.users, u.id) == room_in(g.hub.users, u.id));
    assert forall|id: i32| id != u.id implies #[trigger] room_in(t.hub.users, id) == room_in(
        s.hub.users,
        id,
    ) by {
        table::lemma_put_lookup(s.hub.users, u.id, v, id);
        assert(room_in(g.hub.users, id) == room_in(s.hub.users, id));
    }
    assert forall|id: i32| id != u.id && among(s.room, id) implies #[trigger] among(
        t.room,
        id,
    ) by {
        if u.monitor {
            if s.room.monitors.contains(id) {
                order::lemma_stays(s.room.monitors, u.id, id);
            }
        } else {
            if s.room.users.contains(id) {
                order::lemma_stays(s.room.users, u.id, id);
            }
        }
    }
}

/// A room that can no longer be found keeps everybody's place.
proof fn lemma_unlisted(w: WorldModel, h: u64)
    requires
        seated(w),
    ensures
        seated(world::unlisted(w, h)),
{
    if let Some(r) = table::lookup(w.rooms, h) {
        lemma_same_seats(w, world::unlisted(w, h), h, r, RoomModel { listed: false, ..r });
    }
}

/// A room is taken out only when nobody is in it.
proof fn lemma_swept(w: WorldModel, h: u64)
    requires
        seated(w),
        table::distinct(w.rooms),
    ensures
        seated(world::swept(w, h)),
{
    let v = world::swept(w, h);
    if v.rooms != w.rooms {
        assert forall|id: i32| #[trigger] in_place(v, id) by {
            assert(in_place(w, id));
            if let Some(g) = room_in(w.hub.users, id) {
                table::lemma_find(w.hub.users, id);
                assert(w.hub.users[table::find(w.hub.users, id)].1.room == Some(g));
                table::lemma_without_lookup(w.rooms, h, g);
            }
        }
    } else {
        lemma_same_rooms(w, v);
    }
}

/// Leaving a room keeps everybody's place.
pub proof fn law_left_room_seated(w: WorldModel, uid: i32, pick: Option<i32>)
    requires
        world::wf(w),
        seated(w),
    ensures
        seated(world::left_room(w, uid, pick)),
{
    world::lemma_user_id(w.hub.users, uid);
    if let (Some(u), Some((h, r))) = (world::user_of(w, uid), world::room_of(w, uid)) {
        let (s, drop) = room::left(world::scene_in(w, r), u, pick);
        lemma_left(world::scene_in(w, r), u, pick);
        let t = world::with_scene(w, h, s);
        lemma_seats(w, t, h, r, s.room);
        lemma_unlisted(t, h);
        let v = if drop {
            world::unlisted(t, h)
        } else {
            t
        };
        table::lemma_put_distinct(w.rooms, h, s.room);
        table::lemma_put_distinct(t.rooms, h, RoomModel { listed: false, ..s.room });
        table::lemma_put_lookup(w.rooms, h, s.room, h);
        lemma_swept(v, h);
    }
}

/// What a host decides about their room keeps everybody's place.
proof fn lemma_host_commands_seated(
    w: WorldModel,
    uid: i32,
    cmd: ClientCommandModel,
    settings: Settings,
    texts: Texts,
)
    requires
        seated(w),
        session::accepts(w, uid, cmd),
        cmd is LockRoom || cmd is CycleRoom || cmd is SelectLocalChart || cmd is SelectOnlineChart
            || cmd is SendChart || cmd is CancelLocalChart || cmd is RequestStart,
    ensures
        seated(session::processed(w, uid, cmd, settings, texts, None).0),
{
    let v = session::processed(w, uid, cmd, settings, texts, None).0;
    if v.rooms == w.rooms && v.hub.users == w.hub.users {
        lemma_same_rooms(w, v);
    }
    match cmd {
        ClientCommandModel::LockRoom { lock } => {
            reveal(session::locked);
            if let Ok((h, r)) = session::as_host(w, uid) {
                lemma_same_seats(w, v, h, r, RoomModel { locked: lock, ..r });
            }
        },
        ClientCommandModel::CycleRoom { cycle } => {
            reveal(session::cycled);
            if let Ok((h, r)) = session::as_host(w, uid) {
                lemma_same_seats(w, v, h, r, RoomModel { cycle, ..r });
            }
        },
        ClientCommandModel::SelectLocalChart { id, name } => {
            reveal(session::local_chosen);
            if let Some((h, r)) = world::room_of(w, uid) {
                if r.phase is SelectChart && r.host == Some(uid) {
                    lemma_same_seats(
                        w,
                        v,
                        h,
                        r,
                        RoomModel {
                            local_chart: Some((id, name)),
                            phase: room::Phase::LocalChart { started: Set::empty() },
                            ..r
                        },
                    );
                }
            }
        },
        ClientCommandModel::SelectOnlineChart { id } => {
            reveal(session::online_choice);
            if let Ok((h, r)) = session::as_host(w, uid) {
                if r.phase is LocalChart {
                    lemma_same_seats(
                        w,
                        v,
                        h,
                        r,
                        RoomModel { local_chart: None, phase: room::Phase::SelectChart, ..r },
                    );
                }
            }
        },
        ClientCommandModel::SendChart { addr, port } => {
            reveal(session::chart_sent);
            if let (Ok((h, r)), Some(u)) = (session::as_host(w, uid), world::user_of(w, uid)) {
                if let Some((chart_id, chart_name)) = r.local_chart {
                    let s = room::announced(
                        world::scene_in(w, r),
                        MessageModel::SendChart { user: uid },
                    );
                    let t = Scene {
                        hub: hub::emitted(
                            s.hub,
                            hub::EffectModel::Send {
                                to: session::receivers(r.users, uid),
                                cmd: ServerCommandModel::StartDownload {
                                    host_id: uid,
                                    host_name: u.name,
                                    addr: settings.public_ip@,
                                    port: match settings.web_port {
                                        Some(p) => p,
                                        None => 0,
                                    },
                                    chart_id,
                                    chart_name,
                                },
                            },
                        ),
                        ..s
                    };
                    lemma_checked_seats(w, v, h, r, t);
                }
            }
        },
        ClientCommandModel::CancelLocalChart => {
            reveal(session::local_canceled);
            if let Ok((h, r)) = session::as_host(w, uid) {
                let q = RoomModel {
                    uploaded: false,
                    phase: if r.phase is LocalChart {
                        room::Phase::LocalChart { started: Set::empty() }
                    } else {
                        r.phase
                    },
                    ..r
                };
                lemma_same_seats(w, v, h, r, q);
            }
        },
        ClientCommandModel::RequestStart => {
            reveal(session::start_requested);
            if let Ok((h, r)) = session::as_host(w, uid) {
                if !(r.phase is LocalChart) && r.chart is Some {
                    let s = session::asked_scene(w, r, uid, h);
                    lemma_times(w.hub.users, r.users);
                    lemma_checked_seats(w, v, h, r, s);
                }
            }
        },
        _ => {},
    }
}

/// What a member does in their room keeps everybody's place.
proof fn lemma_member_commands_seated(
    w: WorldModel,
    uid: i32,
    cmd: ClientCommandModel,
    settings: Settings,
    texts: Texts,
)
    requires
        seated(w),
        session::accepts(w, uid, cmd),
        cmd is Chat || cmd is DownloadReady || cmd is UploadChart || cmd is CancelDownloadReady
            || cmd is Ready || cmd is CancelReady || cmd is Abort,
    ensures
        seated(session::processed(w, uid, cmd, settings, texts, None).0),
{
    let v = session::processed(w, uid, cmd, settings, texts, None).0;
    if v.rooms == w.rooms && v.hub.users == w.hub.users {
        lemma_same_rooms(w, v);
    }
    match cmd {
        ClientCommandModel::Chat { message } => {
            reveal(session::said);
            if let Some((h, r)) = world::room_of(w, uid) {
                lemma_same_seats(w, v, h, r, r);
            }
        },
        ClientCommandModel::DownloadReady => {
            reveal(session::downloaded);
            if let Some((h, r)) = world::room_of(w, uid) {
                if let room::Phase::LocalChart { started } = r.phase {
                    let s = room::announced(
                        world::scene_in(
                            w,
                            RoomModel {
                                phase: room::Phase::LocalChart { started: started.insert(uid) },
                                ..r
                            },
                        ),
                        MessageModel::DownloadReady { user: uid },
                    );
                    if r.uploaded && !started.contains(uid) {
                        lemma_checked_seats(w, v, h, r, s);
                    }
                }
            }
        },
        ClientCommandModel::UploadChart { id, data } => {
            reveal(session::uploaded);
            if let Some((h, r)) = world::room_of(w, uid) {
                lemma_same_seats(w, v, h, r, RoomModel { uploaded: true, ..r });
            }
        },
        ClientCommandModel::CancelDownloadReady => {
            reveal(session::download_canceled);
            if let Some((h, r)) = world::room_of(w, uid) {
                if let room::Phase::LocalChart { started } = r.phase {
                    lemma_same_seats(
                            w,
                            v,
                            h,
                            r,
                            RoomModel {
                                phase: room::Phase::LocalChart { started: started.remove(uid) },
                                ..r
                            },
                        );
                }
            }
        },
        ClientCommandModel::Ready => {
            reveal(session::readied);
            if let Some((h, r)) = world::room_of(w, uid) {
                if let room::Phase::WaitForReady { started } = r.phase {
                    let s = room::announced(
                        world::scene_in(
                            w,
                            RoomModel {
                                phase: room::Phase::WaitForReady { started: started.insert(uid) },
                                ..r
                            },
                        ),
                        MessageModel::Ready { user: uid },
                    );
                    if !started.contains(uid) {
                        lemma_checked_seats(w, v, h, r, s);
                    }
                }
            }
        },
        ClientCommandModel::CancelReady => {
            reveal(session::ready_canceled);
            if let Some((h, r)) = world::room_of(w, uid) {
                if let room::Phase::WaitForReady { started } = r.phase {
                    let a = RoomModel { phase: room::Phase::SelectChart, ..r };
                    let b = RoomModel {
                        phase: room::Phase::WaitForReady { started: started.remove(uid) },
                        ..r
                    };
                    if started.contains(uid) && r.host == Some(uid) {
                        lemma_same_seats(w, v, h, r, a);
                    } else if started.contains(uid) {
                        lemma_same_seats(w, v, h, r, b);
                    }
                }
            }
        },
        ClientCommandModel::Abort => {
            reveal(session::aborted);
            if let Some((h, r)) = world::room_of(w, uid) {
                if let room::Phase::Playing { results, aborted } = r.phase {
                    let s = room::announced(
                        world::scene_in(
                            w,
                            RoomModel {
                                phase: room::Phase::Playing {
                                    results,
                                    aborted: aborted.insert(uid),
                                },
                                ..r
                            },
                        ),
                        MessageModel::Abort { user: uid },
                    );
                    if !results.dom().contains(uid) && !aborted.contains(uid) {
                        lemma_checked_seats(w, v, h, r, s);
                    }
                }
            }
        },
        _ => {},
    }
}

/// A list with someone more at its end still holds the others.
proof fn lemma_pushed(ids: Seq<i32>, id: i32)
    ensures
        ids.push(id).contains(id),
        forall|other: i32| ids.contains(other) ==> #[trigger] ids.push(id).contains(other),
{
    assert(ids.push(id)[ids.len() as int] == id);
    assert forall|other: i32| ids.contains(other) implies #[trigger] ids.push(id).contains(
        other,
    ) by {
        let i = choose|i: int| 0 <= i < ids.len() && ids[i] == other;
        assert(ids.push(id)[i] == other);
    }
}

/// Whoever makes a room is among its people, and everybody else stays where they are.
proof fn lemma_created(w: WorldModel, v: WorldModel, uid: i32, u: UserModel, q: RoomModel)
    requires
        world::wf(w),
        seated(w),
        v.rooms == table::put(w.rooms, w.next_room, q),
        v.hub.users == table::put(w.hub.users, uid, UserModel { room: Some(w.next_room), ..u }),
        q.users == seq![uid],
    ensures
        seated(v),
{
    assert(q.users[0] == uid);
    assert forall|id: i32| #[trigger] in_place(v, id) by {
        table::lemma_put_lookup(w.hub.users, uid, UserModel { room: Some(w.next_room), ..u }, id);
        table::lemma_put_lookup(w.rooms, w.next_room, q, w.next_room);
        if id != uid {
            assert(in_place(w, id));
            if let Some(g) = room_in(w.hub.users, id) {
                table::lemma_find(w.rooms, g);
                assert(w.rooms[table::find(w.rooms, g)].0 < w.next_room);
                table::lemma_put_lookup(w.rooms, w.next_room, q, g);
            }
        }
    }
}

/// Whoever comes into a room is among its people, and everybody else stays where they are.
proof fn lemma_joined(
    w: WorldModel,
    v: WorldModel,
    h: u64,
    r: RoomModel,
    uid: i32,
    u: UserModel,
    monitor: bool,
    q: RoomModel,
)
    requires
        seated(w),
        table::lookup(w.rooms, h) == Some(r),
        v.rooms == table::put(w.rooms, h, q),
        v.hub.users == table::put(
            table::put(w.hub.users, uid, UserModel { monitor, ..u }),
            uid,
            UserModel { monitor, room: Some(h), ..u },
        ),
        room::added(r, uid, monitor).1,
        q.users == room::added(r, uid, monitor).0.users,
        q.monitors == room::added(r, uid, monitor).0.monitors,
    ensures
        seated(v),
{
    let a = UserModel { monitor, ..u };
    let b = UserModel { monitor, room: Some(h), ..u };
    lemma_pushed(r.users, uid);
    lemma_pushed(r.monitors, uid);
    assert forall|id: i32| #[trigger] in_place(v, id) by {
        table::lemma_put_lookup(w.hub.users, uid, a, id);
        table::lemma_put_lookup(table::put(w.hub.users, uid, a), uid, b, id);
        table::lemma_put_lookup(w.rooms, h, q, h);
        if id != uid {
            assert(in_place(w, id));
            if let Some(g) = room_in(w.hub.users, id) {
                table::lemma_put_lookup(w.rooms, h, q, g);
            }
        }
    }
}

/// Every command keeps everybody's place: whoever is in a room is among its people.
pub proof fn law_processed_seated(
    w: WorldModel,
    uid: i32,
    cmd: ClientCommandModel,
    settings: Settings,
    texts: Texts,
    pick: Option<i32>,
)
    requires
        world::wf(w),
        seated(w),
        session::accepts(w, uid, cmd),
    ensures
        seated(session::processed(w, uid, cmd, settings, texts, pick).0),
{
    let v = session::processed(w, uid, cmd, settings, texts, pick).0;
    if v.rooms == w.rooms && v.hub.users == w.hub.users {
        lemma_same_rooms(w, v);
    }
    match cmd {
        ClientCommandModel::Touches { frames } => {
            reveal(session::touched);
            if let (Some(u), Some((h, r))) = (world::user_of(w, uid), world::room_of(w, uid)) {
                if frames.len() > 0 {
                    lemma_changed(
                        w.hub.users,
                        uid,
                        UserModel { game_time: frames.last().time, ..u },
                    );
                }
                if r.live {
                    lemma_same_rooms(w, v);
                }
            }
        },
        ClientCommandModel::Judges { judges } => {
            reveal(session::judged);
            if let (Some(u), Some((h, r))) = (world::user_of(w, uid), world::room_of(w, uid)) {
                let s = room::notes_hit(world::scene_in(w, r), uid, u.name, judges);
                lemma_same_seats(w, v, h, r, s.room);
            }
        },
        ClientCommandModel::CreateRoom { id } => {
            reveal(session::room_created);
            if let Some(u) = world::user_of(w, uid) {
                if u.room is None && world::find_listed(w.rooms, id) is None {
                    lemma_created(w, v, uid, u, room::new_room(id, Some(uid), Some(uid)));
                }
            }
        },
        ClientCommandModel::JoinRoom { id, monitor } => {
            reveal(session::room_joined);
            world::lemma_listed(w.rooms, id);
            world::lemma_user_id(w.hub.users, uid);
            if let Some(u) = world::user_of(w, uid) {
                if session::join_refusal(w, u, id, monitor, settings, texts) is None {
                    let (h, r) = world::find_listed(w.rooms, id)->Some_0;
                    let q = session::join_scene(w, r, u, monitor, settings.web_port).room;
                    lemma_joined(w, v, h, r, uid, u, monitor, q);
                }
            }
        },
        ClientCommandModel::LeaveRoom => {
            reveal(session::room_left);
            law_left_room_seated(w, uid, pick);
            if world::room_of(w, uid) is Some {
                lemma_same_rooms(world::left_room(w, uid, pick), v);
            }
        },
        ClientCommandModel::LockRoom { .. } | ClientCommandModel::CycleRoom { .. }
        | ClientCommandModel::SelectLocalChart { .. }
        | ClientCommandModel::SelectOnlineChart { .. } | ClientCommandModel::SendChart { .. }
        | ClientCommandModel::CancelLocalChart | ClientCommandModel::RequestStart => {
            lemma_host_commands_seated(w, uid, cmd, settings, texts);
        },
        ClientCommandModel::Chat { .. } | ClientCommandModel::DownloadReady
        | ClientCommandModel::UploadChart { .. } | ClientCommandModel::CancelDownloadReady
        | ClientCommandModel::Ready | ClientCommandModel::CancelReady
        | ClientCommandModel::Abort => {
            lemma_member_commands_seated(w, uid, cmd, settings, texts);
        },
        _ => {},
    }
}

/// A chart that was fetched keeps everybody's place.
pub proof fn law_chart_chosen_seated(
    w: WorldModel,
    uid: i32,
    h: u64,
    chart: ChartModel,
    online: bool,
)
    requires
        seated(w),
    ensures
        seated(session::chart_chosen(w, uid, h, chart, online)),
{
    reveal(session::chart_chosen);
    let v = session::chart_chosen(w, uid, h, chart, online);
    if let Some(r) = table::lookup(w.rooms, h) {
        lemma_same_seats(w, v, h, r, RoomModel { chart: Some(chart), ..r });
    }
}

/// A result that was fetched keeps everybody's place.
pub proof fn law_finished_seated(w: WorldModel, uid: i32, h: u64, record: Record)
    requires
        seated(w),
    ensures
        seated(session::finished(w, uid, h, record).0),
{
    reveal(session::finished);
    let v = session::finished(w, uid, h, record).0;
    if let Some(r) = table::lookup(w.rooms, h) {
        let s = room::announced(
            world::scene_in(w, r),
            MessageModel::Played {
                user: uid,
                score: record.score,
                accuracy: record.accuracy,
                full_combo: record.full_combo,
            },
        );
        if record.player == uid {
            if let room::Phase::Playing { results, aborted } = r.phase {
                let t = Scene {
                    room: RoomModel {
                        phase: room::Phase::Playing {
                            results: results.insert(uid, record),
                            aborted,
                        },
                        ..s.room
                    },
                    ..s
                };
                if aborted.contains(uid) {
                    lemma_same_seats(w, v, h, r, r);
                } else if results.dom().contains(uid) {
                    lemma_same_seats(w, v, h, r, t.room);
                } else {
                    lemma_checked_seats(w, v, h, r, t);
                }
            } else {
                lemma_same_seats(w, v, h, r, r);
            }
        }
    }
}

/// Someone who watches every room is known, and nobody moves for it.
proof fn lemma_with_watcher(users: Seq<(i32, UserModel)>, id: i32, name: Seq<char>)
    ensures
        unmoved(users, session::with_watcher(users, id, name)),
        table::holds(session::with_watcher(users, id, name), id),
{
    let u = UserModel { monitor: true, ..hub::new_user(id, name, Seq::empty()) };
    table::lemma_put_lookup(users, id, u, id);
    if !table::holds(users, id) {
        lemma_changed(users, id, u);
    }
}

/// A room that one more watches keeps everybody's place.
proof fn lemma_watched(w: WorldModel, v: WorldModel, h: u64, r: RoomModel, id: i32, q: RoomModel)
    requires
        seated(w),
        table::lookup(w.rooms, h) == Some(r),
        v.rooms == table::put(w.rooms, h, q),
        unmoved(w.hub.users, v.hub.users),
        q.users == r.users,
        q.monitors == r.monitors.push(id),
    ensures
        seated(v),
{
    lemma_pushed(r.monitors, id);
    assert forall|other: i32| #[trigger]
        room_in(v.hub.users, other) == Some(h) && among(r, other) implies among(q, other) by {}
    lemma_seats(w, v, h, r, q);
}

/// The watcher comes into a room, which keeps everybody's place.
proof fn lemma_watcher_joined(w: WorldModel, h: u64, creator: i32)
    requires
        seated(w),
    ensures
        seated(session::watcher_joined(w, h, creator)),
{
    let id = session::WATCHER_ID;
    let v = session::watcher_joined(w, h, creator);
    let users = session::with_watcher(w.hub.users, id, "Monitor"@);
    lemma_with_watcher(w.hub.users, id, "Monitor"@);
    if let (Some(r), Some(u)) = (table::lookup(w.rooms, h), table::lookup(users, id)) {
        if r.live || r.competition {
            lemma_same_rooms(w, v);
        } else {
            let m = UserModel { monitor: true, ..u };
            lemma_changed(users, id, m);
            assert forall|other: i32| #[trigger]
                room_in(v.hub.users, other) == room_in(w.hub.users, other) by {
                assert(room_in(users, other) == room_in(w.hub.users, other));
            }
            lemma_watched(
                w,
                v,
                h,
                r,
                m.id,
                room::added(RoomModel { live: true, ..r }, m.id, true).0,
            );
        }
    } else {
        lemma_same_rooms(w, v);
    }
}

/// Those who watch every room come into a new one, which keeps everybody's place.
pub proof fn law_watchers_joined_seated(w: WorldModel, h: u64, creator: i32)
    requires
        seated(w),
    ensures
        seated(session::watchers_joined(w, h, creator)),
{
    let id = crate::replay::RECORDER_BOT_USER_ID;
    let name = crate::replay::recorder_name();
    let a = session::watcher_joined(w, h, creator);
    let b = session::recorder_joined(a, h);
    let v = session::watchers_joined(w, h, creator);
    lemma_watcher_joined(w, h, creator);
    lemma_with_watcher(a.hub.users, id, name);
    let users = session::with_watcher(a.hub.users, id, name);
    if let (Some(r), Some(u)) = (table::lookup(a.rooms, h), table::lookup(users, id)) {
        lemma_watched(a, b, h, r, u.id, room::added(r, u.id, true).0);
    } else {
        lemma_same_rooms(a, b);
    }
    lemma_same_rooms(b, v);
}

/// Someone who watches is ready for a game, which keeps everybody's place.
pub proof fn law_watcher_readied_seated(w: WorldModel, h: u64, id: i32)
    requires
        seated(w),
    ensures
        seated(session::watcher_readied(w, h, id)),
{
    let v = session::watcher_readied(w, h, id);
    if let Some(r) = table::lookup(w.rooms, h) {
        if let room::Phase::WaitForReady { started } = r.phase {
            let s = room::announced(world::scene_in(w, r), MessageModel::Ready { user: id });
            let t = Scene {
                room: RoomModel {
                    phase: room::Phase::WaitForReady { started: started.insert(id) },
                    ..s.room
                },
                ..s
            };
            if r.monitors.contains(id) && !started.contains(id) {
                lemma_checked_seats(w, v, h, r, t);
            }
        }
    }
}

/// Forgetting a user keeps everybody else's place.
pub proof fn law_forgotten_seated(w: WorldModel, uid: i32)
    requires
        world::wf(w),
        seated(w),
    ensures
        seated(presence::forgotten(w, uid)),
{
    let v = presence::forgotten(w, uid);
    assert forall|id: i32| #[trigger] in_place(v, id) by {
        assert(in_place(w, id));
        table::lemma_without_lookup(w.hub.users, uid, id);
        if let Some(h) = room_in(v.hub.users, id) {
            lemma_purged(w.rooms, uid, h);
            if let Some(r) = table::lookup(w.rooms, h) {
                if r.users.contains(id) {
                    order::lemma_stays(r.users, uid, id);
                }
                if r.monitors.contains(id) {
                    order::lemma_stays(r.monitors, uid, id);
                }
            }
        }
    }
}

/// A room is found under its number without one of its people, too.
proof fn lemma_purged(rooms: Seq<(u64, RoomModel)>, uid: i32, h: u64)
    ensures
        table::lookup(presence::rooms_purged(rooms, uid), h) == match table::lookup(rooms, h) {
            Some(r) => Some(presence::purged(r, uid)),
            None => None::<RoomModel>,
        },
{
    let s = presence::rooms_purged(rooms, uid);
    table::lemma_find(rooms, h);
    let i = table::find(rooms, h);
    assert forall|j: int| 0 <= j < i implies (#[trigger] s[j]).0 != h by {
        assert(rooms[j].0 != h);
    }
    table::lemma_find_is(s, h, i);
}

/// Losing a connection keeps everybody's place.
pub proof fn law_dangled_seated(w: WorldModel, uid: i32, mark: u64, pick: Option<i32>)
    requires
        world::wf(w),
        seated(w),
        presence::in_game(w, uid) ==> world::can_leave(w, uid) && room::valid_pick(
            pick,
            world::successors(w, uid),
        ),
    ensures
        seated(presence::dangled(w, uid, mark, pick)),
{
    if let Some(u) = world::user_of(w, uid) {
        if presence::in_game(w, uid) {
            law_left_room_seated(w, uid, pick);
            upkeep::law_left_room(w, uid, pick);
            law_forgotten_seated(world::left_room(w, uid, pick), uid);
        } else {
            lemma_changed(w.hub.users, uid, UserModel { dangle_mark: Some(mark), ..u });
            lemma_same_rooms(w, presence::dangled(w, uid, mark, pick));
        }
    }
}

/// Giving a lost user up keeps everybody else's place.
pub proof fn law_given_up_seated(w: WorldModel, uid: i32, mark: u64, pick: Option<i32>)
    requires
        world::wf(w),
        seated(w),
        world::can_leave(w, uid),
        room::valid_pick(pick, world::successors(w, uid)),
    ensures
        seated(presence::given_up(w, uid, mark, pick)),
{
    law_left_room_seated(w, uid, pick);
    upkeep::law_left_room(w, uid, pick);
    law_forgotten_seated(world::left_room(w, uid, pick), uid);
}

/// A user who comes in keeps everybody's place, and their own.
pub proof fn law_welcomed_seated(
    s: ServerModel,
    session: u128,
    p: presence::Profile,
    ip: Seq<char>,
    now: u64,
)
    requires
        seated(s.world),
    ensures
        seated(presence::welcomed(s, session, p, ip, now).0.world),
        room_in(presence::welcomed(s, session, p, ip, now).0.world.hub.users, p.id) == room_in(
            s.world.hub.users,
            p.id,
        ),
{
    let v = presence::welcomed(s, session, p, ip, now).0.world;
    lemma_changed(s.world.hub.users, p.id, presence::arrived(s.world, p, session));
    lemma_same_rooms(s.world, v);
    assert(room_in(v.hub.users, p.id) == room_in(s.world.hub.users, p.id));
}

/// A room of an administrator keeps everybody's place.
pub proof fn law_room_made_seated(s: ServerModel, id: Seq<char>, competition: bool, now: u128)
    requires
        world::wf(s.world),
        seated(s.world),
    ensures
        seated(admin::room_made(s, id, competition, now).0.world),
{
    let w = s.world;
    let v = admin::room_made(s, id, competition, now).0.world;
    if admin::making_refused(w, id) is None {
        assert forall|uid: i32| #[trigger] in_place(v, uid) by {
            assert(in_place(w, uid));
            if let Some(g) = room_in(w.hub.users, uid) {
                table::lemma_find(w.rooms, g);
                assert(w.rooms[table::find(w.rooms, g)].0 < w.next_room);
                table::lemma_put_lookup(
                    w.rooms,
                    w.next_room,
                    admin::admin_room(id, competition),
                    g,
                );
            }
        }
    }
}

/// A look at the game of a competition keeps everybody's place.
pub proof fn law_ticked_seated(w: WorldModel, h: u64, c: admin::Countdown)
    requires
        seated(w),
    ensures
        seated(admin::ticked(w, h, c).0),
{
    let v = admin::ticked(w, h, c).0;
    if let Some(r) = table::lookup(w.rooms, h) {
        lemma_times(w.hub.users, r.users);
        match c {
            admin::Countdown::Waiting => {
                if admin::players_ready(r) {
                    lemma_same_seats(w, v, h, r, r);
                }
            },
            admin::Countdown::Counting(i) => {
                if i > 1 {
                    lemma_same_seats(w, v, h, r, r);
                } else {
                    lemma_same_seats(
                        w,
                        v,
                        h,
                        r,
                        admin::competition_begun(world::scene_in(w, r)).room,
                    );
                }
            },
            admin::Countdown::Done => {},
        }
    }
}

/// A request for a game keeps everybody's place.
pub proof fn law_game_requested_seated(s: ServerModel, id: Seq<char>)
    requires
        world::wf(s.world),
        seated(s.world),
    ensures
        seated(admin::game_requested(s, id).0.world),
{
    world::lemma_listed(s.world.rooms, id);
    if let Ok((h, r)) = admin::named_room(s.world, id) {
        lemma_times(s.world.hub.users, r.users);
        if r.chart is Some {
            lemma_same_seats(
                s.world,
                admin::game_requested(s, id).0.world,
                h,
                r,
                RoomModel { phase: room::Phase::WaitForReady { started: Set::empty() }, ..r },
            );
        }
    }
}

/// Making a room live keeps everybody's place.
pub proof fn law_live_requested_seated(w: WorldModel, id: Seq<char>)
    requires
        world::wf(w),
        seated(w),
    ensures
        seated(admin::live_requested(w, id).0),
{
    world::lemma_listed(w.rooms, id);
    let v = admin::live_requested(w, id).0;
    if let Ok((h, r)) = admin::requested(w, id) {
        if r.competition && !r.live {
            let q = admin::made_live(world::scene_in(w, r)).room;
            if let Some(u) = table::lookup(w.hub.users, session::WATCHER_ID) {
                lemma_watched(w, v, h, r, u.id, q);
            } else {
                lemma_same_seats(w, v, h, r, q);
            }
        }
    }
}

/// Someone who leaves a room that is being deleted keeps everybody's place.
pub proof fn law_driven_out_seated(w: WorldModel, h: u64, uid: i32, pick: Option<i32>)
    requires
        world::wf(w),
        seated(w),
    ensures
        seated(admin::driven_out(w, h, uid, pick)),
{
    world::lemma_user_id(w.hub.users, uid);
    if let (Some(u), Some(r)) = (world::user_of(w, uid), table::lookup(w.rooms, h)) {
        let s = room::left(world::scene_in(w, r), u, pick).0;
        lemma_left(world::scene_in(w, r), u, pick);
        lemma_seats(w, admin::driven_out(w, h, uid, pick), h, r, s.room);
    }
}

/// Dropping a room keeps everybody's place: it goes only when nobody is in it.
pub proof fn law_room_dropped_seated(s: ServerModel, h: u64)
    requires
        world::wf(s.world),
        seated(s.world),
    ensures
        seated(tidy::room_dropped(s, h).world),
{
    lemma_unlisted(s.world, h);
    if let Some(r) = table::lookup(s.world.rooms, h) {
        table::lemma_put_distinct(s.world.rooms, h, RoomModel { listed: false, ..r });
        lemma_swept(world::unlisted(s.world, h), h);
    }
}

/// On a server that has just started everybody is in their place.
pub proof fn law_start_seated(w: WorldModel)
    requires
        w.hub.users.len() == 0,
    ensures
        seated(w),
{
    assert forall|id: i32| #[trigger] in_place(w, id) by {
        table::lemma_find(w.hub.users, id);
    }
}

/// Whoever is in a room finds it: it is there, and they are among its people.
pub proof fn law_room_found(w: WorldModel, uid: i32)
    requires
        seated(w),
    ensures
        world::user_of(w, uid) matches Some(u) ==> (u.room matches Some(h) ==> (world::room_of(
            w,
            uid,
        ) matches Some((g, r)) && g == h && among(r, uid))),
{
    assert(in_place(w, uid));
}

} // verus!
