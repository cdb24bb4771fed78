//! What else every command keeps: no room holds more players than it has places for, the host
//! of a room is one of its players, and no two rooms can be found by the same id.
use crate::admin;
use crate::command::{ClientCommandModel, MessageModel, ServerCommandModel};
use crate::hub;
use crate::hub::{ChartModel, Record, UserModel};
use crate::presence;
use crate::room;
use crate::room::{RoomModel, Scene};
use crate::server::ServerModel;
use crate::session;
use crate::session::{Settings, Texts};
use crate::table;
use crate::upkeep;
use crate::world;
use crate::world::WorldModel;
use vstd::prelude::*;

verus! {

/// There are no more players in a room than it has places; the host of a room that can be
/// found, if it has one, is one of its players; the room of a competition has none.
pub open spec fn orderly(r: RoomModel) -> bool {
    &&& r.users.len() <= room::ROOM_MAX_USERS
    &&& r.competition ==> r.host is None
    &&& r.listed ==> (r.host matches Some(h) ==> r.users.contains(h))
}

/// Whether two rooms can be found by the same id.
pub open spec fn clash(a: RoomModel, b: RoomModel) -> bool {
    a.listed && b.listed && a.id == b.id
}

/// No room holds too many players, in every room that can be found the host is one of the
/// players, and no two rooms can be found by the same id.
pub open spec fn fair(w: WorldModel) -> bool {
    &&& forall|i: int| 0 <= i < w.rooms.len() ==> orderly((#[trigger] w.rooms[i]).1)
    &&& forall|i: int, j: int|
        0 <= i < j < w.rooms.len() ==> !clash((#[trigger] w.rooms[i]).1, (#[trigger] w.rooms[j]).1)
}

/// One room comes after another: under the same id, not found where it could not be, and
/// in order if the first was.
pub open spec fn keeps(r: RoomModel, q: RoomModel) -> bool {
    q.id == r.id && (q.listed ==> r.listed) && (orderly(r) ==> orderly(q))
}

/// Changing one room keeps the order.
proof fn lemma_room_kept(w: WorldModel, v: WorldModel, h: u64, r: RoomModel, q: RoomModel)
    requires
        fair(w),
        table::lookup(w.rooms, h) == Some(r),
        v.rooms == table::put(w.rooms, h, q),
        keeps(r, q),
    ensures
        fair(v),
{
    table::lemma_find(w.rooms, h);
    let k = table::find(w.rooms, h);
    assert(w.rooms[k].1 == r);
    assert forall|i: int| 0 <= i < v.rooms.len() implies orderly((#[trigger] v.rooms[i]).1) by {
        assert(orderly(w.rooms[i].1));
    }
    assert forall|i: int, j: int| 0 <= i < j < v.rooms.len() implies !clash(
        (#[trigger] v.rooms[i]).1,
        (#[trigger] v.rooms[j]).1,
    ) by {
        assert(!clash(w.rooms[i].1, w.rooms[j].1));
    }
}

/// Taking a room out keeps the order.
proof fn lemma_room_gone(w: WorldModel, h: u64)
    requires
        fair(w),
    ensures
        fair(WorldModel { rooms: table::without(w.rooms, h), ..w }),
{
    let v = WorldModel { rooms: table::without(w.rooms, h), ..w };
    if table::holds(w.rooms, h) {
        table::lemma_find(w.rooms, h);
        let k = table::find(w.rooms, h);
        assert forall|i: int| 0 <= i < v.rooms.len() implies orderly((#[trigger] v.rooms[i]).1) by {
            let a = if i < k {
                i
            } else {
                i + 1
            };
            assert(v.rooms[i] == w.rooms[a]);
        }
        assert forall|i: int, j: int| 0 <= i < j < v.rooms.len() implies !clash(
            (#[trigger] v.rooms[i]).1,
            (#[trigger] v.rooms[j]).1,
        ) by {
            let a = if i < k {
                i
            } else {
                i + 1
            };
            let b = if j < k {
                j
            } else {
                j + 1
            };
            assert(v.rooms[i] == w.rooms[a] && v.rooms[j] == w.rooms[b]);
        }
    }
}

/// A new room keeps the order if no other can be found by its id.
proof fn lemma_room_new(w: WorldModel, v: WorldModel, q: RoomModel)
    requires
        world::wf(w),
        fair(w),
        world::find_listed(w.rooms, q.id) is None,
        v.rooms == table::put(w.rooms, w.next_room, q),
        orderly(q),
    ensures
        fair(v),
{
    assert forall|i: int| 0 <= i < w.rooms.len() implies (#[trigger] w.rooms[i]).0
        != w.next_room by {}
    table::lemma_find_is(w.rooms, w.next_room, w.rooms.len() as int);
    assert forall|i: int| 0 <= i < v.rooms.len() implies orderly((#[trigger] v.rooms[i]).1) by {
        if i < w.rooms.len() {
            assert(v.rooms[i] == w.rooms[i]);
        }
    }
    assert forall|i: int, j: int| 0 <= i < j < v.rooms.len() implies !clash(
        (#[trigger] v.rooms[i]).1,
        (#[trigger] v.rooms[j]).1,
    ) by {
        assert(v.rooms[i] == w.rooms[i]);
        if j < w.rooms.len() {
            assert(v.rooms[j] == w.rooms[j]);
        } else {
            lemma_not_listed(w.rooms, q.id, i);
        }
    }
}

/// A room that is not found by an id is not listed under it.
proof fn lemma_not_listed(rooms: Seq<(u64, RoomModel)>, id: Seq<char>, i: int)
    requires
        world::find_listed(rooms, id) is None,
        0 <= i < rooms.len(),
    ensures
        !(rooms[i].1.listed && rooms[i].1.id == id),
    decreases rooms.len(),
{
    if i > 0 {
        lemma_not_listed(rooms.skip(1), id, i - 1);
        assert(rooms.skip(1)[i - 1] == rooms[i]);
    }
}

/// Checking whether everybody is ready, or done, keeps the order of a room.
proof fn lemma_checked_kept(s: Scene)
    requires
        !room::no_successor(s.room),
    ensures
        keeps(s.room, room::checked(s).room),
{
    if s.room.users.len() > 0 {
        upkeep::lemma_next_host(s.room.users, s.room.host);
    }
}

/// Who stays in a list is still in it.
pub proof fn lemma_stays(ids: Seq<i32>, id: i32, other: i32)
    requires
        ids.contains(other),
        other != id,
    ensures
        room::dropped(ids, id).contains(other),
    decreases ids.len(),
{
    let front = room::dropped(ids.drop_last(), id);
    let all = room::dropped(ids, id);
    if ids.last() == other {
        assert(all[all.len() - 1] == other);
    } else {
        let i = choose|i: int| 0 <= i < ids.len() && ids[i] == other;
        assert(ids.drop_last()[i] == other);
        lemma_stays(ids.drop_last(), id, other);
        let k = choose|k: int| 0 <= k < front.len() && front[k] == other;
        assert(all[k] == other);
    }
}

/// A list is no longer after someone was dropped from it.
proof fn lemma_fewer(ids: Seq<i32>, id: i32)
    ensures
        room::dropped(ids, id).len() <= ids.len(),
    decreases ids.len(),
{
    if ids.len() > 0 {
        lemma_fewer(ids.drop_last(), id);
    }
}

/// Someone leaves a room: its order is kept, or it is to be dropped.
proof fn lemma_left_kept(s: Scene, u: UserModel, pick: Option<i32>)
    requires
        room::can_leave(s.room, u),
        room::valid_pick(pick, room::successors(s.room, u)),
        orderly(s.room),
    ensures
        ({
            let (t, drop) = room::left(s, u, pick);
            &&& t.room.id == s.room.id
            &&& t.room.listed == s.room.listed
            &&& !drop ==> orderly(t.room)
            &&& drop ==> !t.room.competition
            &&& t.room.users.len() <= s.room.users.len()
        }),
{
    let g = room::gone(s, u);
    lemma_fewer(s.room.users, u.id);
    if s.room.host == Some(u.id) {
        let b = room::game_broken_off(g);
        if !b.room.competition {
            if let Some(p) = pick {
                let c = room::crowned(b, p);
                assert(c.room.users == room::successors(s.room, u));
                lemma_checked_kept(c);
            }
        }
    } else {
        if orderly(s.room) {
            if let Some(h) = s.room.host {
                if s.room.listed && !u.monitor {
                    lemma_stays(s.room.users, u.id, h);
                }
            }
        }
        lemma_checked_kept(g);
    }
}

/// A room that is looked up is in order.
proof fn lemma_orderly(w: WorldModel, h: u64)
    requires
        fair(w),
    ensures
        table::lookup(w.rooms, h) matches Some(r) ==> orderly(r),
{
    table::lemma_find(w.rooms, h);
}

/// Leaving a room keeps the order.
pub proof fn law_left_room_fair(w: WorldModel, uid: i32, pick: Option<i32>)
    requires
        fair(w),
        world::can_leave(w, uid),
        room::valid_pick(pick, world::successors(w, uid)),
    ensures
        fair(world::left_room(w, uid, pick)),
{
    if let (Some(u), Some((h, r))) = (world::user_of(w, uid), world::room_of(w, uid)) {
        lemma_orderly(w, h);
        let (s, drop) = room::left(world::scene_in(w, r), u, pick);
        lemma_left_kept(world::scene_in(w, r), u, pick);
        let t = world::with_scene(w, h, s);
        table::lemma_put_lookup(w.rooms, h, s.room, h);
        let v = if drop {
            world::unlisted(t, h)
        } else {
            t
        };
        if drop {
            let q = RoomModel { listed: false, ..s.room };
            table::lemma_find(w.rooms, h);
            table::lemma_find(t.rooms, h);
            assert(v.rooms =~= table::put(w.rooms, h, q));
            lemma_room_kept(w, v, h, r, q);
        } else {
            lemma_room_kept(w, v, h, r, s.room);
        }
        lemma_room_gone(v, h);
    }
}

/// What a host decides about their room keeps the order.
proof fn lemma_host_commands_fair(
    w: WorldModel,
    uid: i32,
    cmd: ClientCommandModel,
    settings: Settings,
    texts: Texts,
)
    requires
        fair(w),
        session::accepts(w, uid, cmd),
        cmd is LockRoom || cmd is CycleRoom || cmd is SelectLocalChart || cmd is SelectOnlineChart
            || cmd is SendChart || cmd is CancelLocalChart || cmd is RequestStart,
    ensures
        fair(session::processed(w, uid, cmd, settings, texts, None).0),
{
    let v = session::processed(w, uid, cmd, settings, texts, None).0;
    match cmd {
        ClientCommandModel::LockRoom { lock } => {
            reveal(session::locked);
            if let Ok((h, r)) = session::as_host(w, uid) {
                lemma_room_kept(w, v, h, r, RoomModel { locked: lock, ..r });
            }
        },
        ClientCommandModel::CycleRoom { cycle } => {
            reveal(session::cycled);
            if let Ok((h, r)) = session::as_host(w, uid) {
                lemma_room_kept(w, v, h, r, RoomModel { cycle, ..r });
            }
        },
        ClientCommandModel::SelectLocalChart { id, name } => {
            reveal(session::local_chosen);
            if let Some((h, r)) = world::room_of(w, uid) {
                if r.phase is SelectChart && r.host == Some(uid) {
                    lemma_room_kept(
                        w,
                        v,
                        h,
                        r,
                        RoomModel {
                            local_chart: Some((id, name)),
                            phase: room::Phase::LocalChart { started: Set::empty() },
                            ..r
                        },
                    );
                }
            }
        },
        ClientCommandModel::SelectOnlineChart { id } => {
            reveal(session::online_choice);
            if let Ok((h, r)) = session::as_host(w, uid) {
                if r.phase is LocalChart {
                    lemma_room_kept(
                        w,
                        v,
                        h,
                        r,
                        RoomModel { local_chart: None, phase: room::Phase::SelectChart, ..r },
                    );
                }
            }
        },
        ClientCommandModel::SendChart { addr, port } => {
            reveal(session::chart_sent);
            if let (Ok((h, r)), Some(u)) = (session::as_host(w, uid), world::user_of(w, uid)) {
                if let Some((chart_id, chart_name)) = r.local_chart {
                    let s = room::announced(
                        world::scene_in(w, r),
                        MessageModel::SendChart { user: uid },
                    );
                    let t = Scene {
                        hub: hub::emitted(
                            s.hub,
                            hub::EffectModel::Send {
                                to: session::receivers(r.users, uid),
                                cmd: ServerCommandModel::StartDownload {
                                    host_id: uid,
                                    host_name: u.name,
                                    addr: settings.public_ip@,
                                    port: match settings.web_port {
                                        Some(p) => p,
                                        None => 0,
                                    },
                                    chart_id,
                                    chart_name,
                                },
                            },
                        ),
                        ..s
                    };
                    lemma_checked_kept(t);
                    lemma_room_kept(w, v, h, r, room::checked(t).room);
                }
            }
        },
        ClientCommandModel::CancelLocalChart => {
            reveal(session::local_canceled);
            if let Ok((h, r)) = session::as_host(w, uid) {
                let q = RoomModel {
                    uploaded: false,
                    phase: if r.phase is LocalChart {
                        room::Phase::LocalChart { started: Set::empty() }
                    } else {
                        r.phase
                    },
                    ..r
                };
                lemma_room_kept(w, v, h, r, q);
            }
        },
        ClientCommandModel::RequestStart => {
            reveal(session::start_requested);
            if let Ok((h, r)) = session::as_host(w, uid) {
                if !(r.phase is LocalChart) && r.chart is Some {
                    let s = session::asked_scene(w, r, uid, h);
                    lemma_checked_kept(s);
                    lemma_room_kept(w, v, h, r, room::checked(s).room);
                }
            }
        },
        _ => {},
    }
}

/// What a member does in their room keeps the order.
proof fn lemma_member_commands_fair(
    w: WorldModel,
    uid: i32,
    cmd: ClientCommandModel,
    settings: Settings,
    texts: Texts,
)
    requires
        fair(w),
        session::accepts(w, uid, cmd),
        cmd is Chat || cmd is DownloadReady || cmd is UploadChart || cmd is CancelDownloadReady
            || cmd is Ready || cmd is CancelReady || cmd is Abort,
    ensures
        fair(session::processed(w, uid, cmd, settings, texts, None).0),
{
    let v = session::processed(w, uid, cmd, settings, texts, None).0;
    match cmd {
        ClientCommandModel::Chat { message } => {
            reveal(session::said);
            if let Some((h, r)) = world::room_of(w, uid) {
                lemma_room_kept(w, v, h, r, r);
            }
        },
        ClientCommandModel::DownloadReady => {
            reveal(session::downloaded);
            if let Some((h, r)) = world::room_of(w, uid) {
                if let room::Phase::LocalChart { started } = r.phase {
                    let s = room::announced(
                        world::scene_in(
                            w,
                            RoomModel {
                                phase: room::Phase::LocalChart { started: started.insert(uid) },
                                ..r
                            },
                        ),
                        MessageModel::DownloadReady { user: uid },
                    );
                    lemma_checked_kept(s);
                    if v.rooms != w.rooms {
                        lemma_room_kept(w, v, h, r, room::checked(s).room);
                    }
                }
            }
        },
        ClientCommandModel::UploadChart { id, data } => {
            reveal(session::uploaded);
            if let Some((h, r)) = world::room_of(w, uid) {
                lemma_room_kept(w, v, h, r, RoomModel { uploaded: true, ..r });
            }
        },
        ClientCommandModel::CancelDownloadReady => {
            reveal(session::download_canceled);
            if let Some((h, r)) = world::room_of(w, uid) {
                if let room::Phase::LocalChart { started } = r.phase {
                    if v.rooms != w.rooms {
                        lemma_room_kept(
                            w,
                            v,
                            h,
                            r,
                            RoomModel {
                                phase: room::Phase::LocalChart { started: started.remove(uid) },
                                ..r
                            },
                        );
                    }
                }
            }
        },
        ClientCommandModel::Ready => {
            reveal(session::readied);
            if let Some((h, r)) = world::room_of(w, uid) {
                if let room::Phase::WaitForReady { started } = r.phase {
                    let s = room::announced(
                        world::scene_in(
                            w,
                            RoomModel {
                                phase: room::Phase::WaitForReady { started: started.insert(uid) },
                                ..r
                            },
                        ),
                        MessageModel::Ready { user: uid },
                    );
                    lemma_checked_kept(s);
                    if v.rooms != w.rooms {
                        lemma_room_kept(w, v, h, r, room::checked(s).room);
                    }
                }
            }
        },
        ClientCommandModel::CancelReady => {
            reveal(session::ready_canceled);
            if let Some((h, r)) = world::room_of(w, uid) {
                if let room::Phase::WaitForReady { started } = r.phase {
                    let a = RoomModel { phase: room::Phase::SelectChart, ..r };
                    let b = RoomModel {
                        phase: room::Phase::WaitForReady { started: started.remove(uid) },
                        ..r
                    };
                    if v.rooms == table::put(w.rooms, h, a) {
                        lemma_room_kept(w, v, h, r, a);
                    } else if v.rooms != w.rooms {
                        lemma_room_kept(w, v, h, r, b);
                    }
                }
            }
        },
        ClientCommandModel::Abort => {
            reveal(session::aborted);
            if let Some((h, r)) = world::room_of(w, uid) {
                if let room::Phase::Playing { results, aborted } = r.phase {
                    let s = room::announced(
                        world::scene_in(
                            w,
                            RoomModel {
                                phase: room::Phase::Playing {
                                    results,
                                    aborted: aborted.insert(uid),
                                },
                                ..r
                            },
                        ),
                        MessageModel::Abort { user: uid },
                    );
                    if session::still_playing(r, uid) {
                        lemma_checked_kept(s);
                    }
                    if v.rooms != w.rooms {
                        lemma_room_kept(w, v, h, r, room::checked(s).room);
                    }
                }
            }
        },
        _ => {},
    }
}

/// Every command keeps the order: no room holds more players than it has places for, the host
/// of a room that can be found is one of its players, and no two rooms can be found by the
/// same id.
pub proof fn law_processed_fair(
    w: WorldModel,
    uid: i32,
    cmd: ClientCommandModel,
    settings: Settings,
    texts: Texts,
    pick: Option<i32>,
)
    requires
        world::wf(w),
        fair(w),
        session::accepts(w, uid, cmd),
        room::valid_pick(pick, world::successors(w, uid)),
    ensures
        fair(session::processed(w, uid, cmd, settings, texts, pick).0),
{
    let v = session::processed(w, uid, cmd, settings, texts, pick).0;
    match cmd {
        ClientCommandModel::Touches { frames } => {
            reveal(session::touched);
            if let Some((h, r)) = world::room_of(w, uid) {
                if v.rooms != w.rooms {
                    lemma_room_kept(w, v, h, r, r);
                }
            }
        },
        ClientCommandModel::Judges { judges } => {
            reveal(session::judged);
            if let (Some(u), Some((h, r))) = (world::user_of(w, uid), world::room_of(w, uid)) {
                let s = room::notes_hit(world::scene_in(w, r), uid, u.name, judges);
                if v.rooms != w.rooms {
                    lemma_room_kept(w, v, h, r, s.room);
                }
            }
        },
        ClientCommandModel::CreateRoom { id } => {
            reveal(session::room_created);
            world::lemma_user_id(w.hub.users, uid);
            if let Some(u) = world::user_of(w, uid) {
                if u.room is None && world::find_listed(w.rooms, id) is None {
                    let q = room::new_room(id, Some(uid), Some(uid));
                    assert(q.users[0] == uid);
                    lemma_room_new(w, v, q);
                }
            }
        },
        ClientCommandModel::JoinRoom { id, monitor } => {
            reveal(session::room_joined);
            world::lemma_listed(w.rooms, id);
            if let Some(u) = world::user_of(w, uid) {
                if session::join_refusal(w, u, id, monitor, settings, texts) is None {
                    let (h, r) = world::find_listed(w.rooms, id)->Some_0;
                    let q = session::join_scene(w, r, u, monitor, settings.web_port).room;
                    if let Some(host) = r.host {
                        if r.listed && orderly(r) {
                            let i = choose|i: int| 0 <= i < r.users.len() && r.users[i] == host;
                            assert(q.users[i] == host);
                        }
                    }
                    lemma_room_kept(w, v, h, r, q);
                }
            }
        },
        ClientCommandModel::LeaveRoom => {
            reveal(session::room_left);
            law_left_room_fair(w, uid, pick);
        },
        ClientCommandModel::LockRoom { .. } | ClientCommandModel::CycleRoom { .. }
        | ClientCommandModel::SelectLocalChart { .. }
        | ClientCommandModel::SelectOnlineChart { .. } | ClientCommandModel::SendChart { .. }
        | ClientCommandModel::CancelLocalChart | ClientCommandModel::RequestStart => {
            lemma_host_commands_fair(w, uid, cmd, settings, texts);
        },
        ClientCommandModel::Chat { .. } | ClientCommandModel::DownloadReady
        | ClientCommandModel::UploadChart { .. } | ClientCommandModel::CancelDownloadReady
        | ClientCommandModel::Ready | ClientCommandModel::CancelReady
        | ClientCommandModel::Abort => {
            lemma_member_commands_fair(w, uid, cmd, settings, texts);
        },
        _ => {},
    }
}

/// A chart that was fetched keeps the order.
pub proof fn law_chart_chosen_fair(
    w: WorldModel,
    uid: i32,
    h: u64,
    chart: ChartModel,
    online: bool,
)
    requires
        fair(w),
    ensures
        fair(session::chart_chosen(w, uid, h, chart, online)),
{
    reveal(session::chart_chosen);
    let v = session::chart_chosen(w, uid, h, chart, online);
    if let Some(r) = table::lookup(w.rooms, h) {
        lemma_room_kept(w, v, h, r, RoomModel { chart: Some(chart), ..r });
    }
}

/// A result that was fetched keeps the order.
pub proof fn law_finished_fair(w: WorldModel, uid: i32, h: u64, record: Record)
    requires
        fair(w),
        !session::record_stuck(w, uid, h, record),
    ensures
        fair(session::finished(w, uid, h, record).0),
{
    reveal(session::finished);
    let v = session::finished(w, uid, h, record).0;
    if let Some(r) = table::lookup(w.rooms, h) {
        let s = room::announced(
            world::scene_in(w, r),
            MessageModel::Played {
                user: uid,
                score: record.score,
                accuracy: record.accuracy,
                full_combo: record.full_combo,
            },
        );
        if let room::Phase::Playing { results, aborted } = r.phase {
            let t = Scene {
                room: RoomModel {
                    phase: room::Phase::Playing {
                        results: results.insert(uid, record),
                        aborted,
                    },
                    ..s.room
                },
                ..s
            };
            if record.player == uid {
                if session::still_playing(r, uid) {
                    lemma_checked_kept(t);
                    lemma_room_kept(w, v, h, r, room::checked(t).room);
                } else if aborted.contains(uid) {
                    lemma_room_kept(w, v, h, r, r);
                } else {
                    lemma_room_kept(w, v, h, r, t.room);
                }
            }
        } else if v.rooms != w.rooms {
            lemma_room_kept(w, v, h, r, r);
        }
    }
}

/// Those who watch every room come into a new one, which keeps the order.
pub proof fn law_watchers_joined_fair(w: WorldModel, h: u64, creator: i32)
    requires
        fair(w),
    ensures
        fair(session::watchers_joined(w, h, creator)),
{
    let a = session::watcher_joined(w, h, creator);
    if let Some(r) = table::lookup(w.rooms, h) {
        if a.rooms != w.rooms {
            let u = UserModel {
                monitor: true,
                ..table::lookup(
                    session::with_watcher(w.hub.users, session::WATCHER_ID, "Monitor"@),
                    session::WATCHER_ID,
                )->Some_0
            };
            lemma_room_kept(
                w,
                a,
                h,
                r,
                room::added(RoomModel { live: true, ..r }, u.id, true).0,
            );
        }
    }
    let b = session::recorder_joined(a, h);
    if let Some(r) = table::lookup(a.rooms, h) {
        if b.rooms != a.rooms {
            let u = table::lookup(b.hub.users, crate::replay::RECORDER_BOT_USER_ID)->Some_0;
            lemma_room_kept(a, b, h, r, room::added(r, u.id, true).0);
        }
    }
}

/// Someone who watches is ready for a game, which keeps the order.
pub proof fn law_watcher_readied_fair(w: WorldModel, h: u64, id: i32)
    requires
        fair(w),
    ensures
        fair(session::watcher_readied(w, h, id)),
{
    let v = session::watcher_readied(w, h, id);
    if let Some(r) = table::lookup(w.rooms, h) {
        if let room::Phase::WaitForReady { started } = r.phase {
            let s = room::announced(world::scene_in(w, r), MessageModel::Ready { user: id });
            let t = Scene {
                room: RoomModel {
                    phase: room::Phase::WaitForReady { started: started.insert(id) },
                    ..s.room
                },
                ..s
            };
            lemma_checked_kept(t);
            if v.rooms != w.rooms {
                lemma_room_kept(w, v, h, r, room::checked(t).room);
            }
        }
    }
}

/// Forgetting a user keeps the order.
pub proof fn law_forgotten_fair(w: WorldModel, uid: i32)
    requires
        fair(w),
    ensures
        fair(presence::forgotten(w, uid)),
{
    let v = presence::forgotten(w, uid);
    assert forall|i: int| 0 <= i < v.rooms.len() implies orderly((#[trigger] v.rooms[i]).1) by {
        let r = w.rooms[i].1;
        assert(orderly(r));
        lemma_fewer(r.users, uid);
        if let Some(h) = r.host {
            if h != uid && r.listed {
                lemma_stays(r.users, uid, h);
            }
        }
    }
    assert forall|i: int, j: int| 0 <= i < j < v.rooms.len() implies !clash(
        (#[trigger] v.rooms[i]).1,
        (#[trigger] v.rooms[j]).1,
    ) by {
        assert(!clash(w.rooms[i].1, w.rooms[j].1));
    }
}

/// Losing a connection keeps the order.
pub proof fn law_dangled_fair(w: WorldModel, uid: i32, mark: u64, pick: Option<i32>)
    requires
        fair(w),
        presence::in_game(w, uid) ==> world::can_leave(w, uid) && room::valid_pick(
            pick,
            world::successors(w, uid),
        ),
    ensures
        fair(presence::dangled(w, uid, mark, pick)),
{
    if presence::in_game(w, uid) {
        law_left_room_fair(w, uid, pick);
        law_forgotten_fair(world::left_room(w, uid, pick), uid);
    }
}

/// Giving a lost user up keeps the order.
pub proof fn law_given_up_fair(w: WorldModel, uid: i32, mark: u64, pick: Option<i32>)
    requires
        fair(w),
        world::can_leave(w, uid),
        room::valid_pick(pick, world::successors(w, uid)),
    ensures
        fair(presence::given_up(w, uid, mark, pick)),
{
    law_left_room_fair(w, uid, pick);
    law_forgotten_fair(world::left_room(w, uid, pick), uid);
}

/// A room of an administrator keeps the order.
pub proof fn law_room_made_fair(s: ServerModel, id: Seq<char>, competition: bool, now: u128)
    requires
        world::wf(s.world),
        fair(s.world),
    ensures
        fair(admin::room_made(s, id, competition, now).0.world),
{
    if admin::making_refused(s.world, id) is None {
        lemma_room_new(
            s.world,
            admin::room_made(s, id, competition, now).0.world,
            admin::admin_room(id, competition),
        );
    }
}

/// A look at the game of a competition keeps the order.
pub proof fn law_ticked_fair(w: WorldModel, h: u64, c: admin::Countdown)
    requires
        fair(w),
    ensures
        fair(admin::ticked(w, h, c).0),
{
    let v = admin::ticked(w, h, c).0;
    if let Some(r) = table::lookup(w.rooms, h) {
        let q = RoomModel { phase: room::fresh_game(), ..r };
        if v.rooms == table::put(w.rooms, h, q) {
            lemma_room_kept(w, v, h, r, q);
        } else if v.rooms != w.rooms {
            lemma_room_kept(w, v, h, r, r);
        }
    }
}

/// A request for a game keeps the order.
pub proof fn law_game_requested_fair(s: ServerModel, id: Seq<char>)
    requires
        world::wf(s.world),
        fair(s.world),
    ensures
        fair(admin::game_requested(s, id).0.world),
{
    world::lemma_listed(s.world.rooms, id);
    if let Ok((h, r)) = admin::named_room(s.world, id) {
        if r.chart is Some {
            lemma_room_kept(
                s.world,
                admin::game_requested(s, id).0.world,
                h,
                r,
                RoomModel { phase: room::Phase::WaitForReady { started: Set::empty() }, ..r },
            );
        }
    }
}

/// Making a room live keeps the order.
pub proof fn law_live_requested_fair(w: WorldModel, id: Seq<char>)
    requires
        world::wf(w),
        fair(w),
    ensures
        fair(admin::live_requested(w, id).0),
{
    world::lemma_listed(w.rooms, id);
    if let Ok((h, r)) = admin::requested(w, id) {
        if r.competition && !r.live {
            lemma_room_kept(
                w,
                admin::live_requested(w, id).0,
                h,
                r,
                admin::made_live(world::scene_in(w, r)).room,
            );
        }
    }
}

/// Someone who leaves a room that is being deleted keeps the order.
pub proof fn law_driven_out_fair(w: WorldModel, h: u64, uid: i32, pick: Option<i32>)
    requires
        fair(w),
        admin::can_go(w, h, uid),
        room::valid_pick(pick, admin::heirs(w, h, uid)),
        table::lookup(w.rooms, h) matches Some(r) ==> !r.listed,
    ensures
        fair(admin::driven_out(w, h, uid, pick)),
{
    lemma_orderly(w, h);
    if let (Some(u), Some(r)) = (world::user_of(w, uid), table::lookup(w.rooms, h)) {
        let s = room::left(world::scene_in(w, r), u, pick).0;
        lemma_left_kept(world::scene_in(w, r), u, pick);
        lemma_room_kept(w, admin::driven_out(w, h, uid, pick), h, r, s.room);
    }
}

/// An id finds one room: whichever room can be found by it is the one.
pub proof fn law_one_room_per_id(w: WorldModel, i: int)
    requires
        world::wf(w),
        fair(w),
        0 <= i < w.rooms.len(),
        w.rooms[i].1.listed,
    ensures
        world::find_listed(w.rooms, w.rooms[i].1.id) == Some((w.rooms[i].0, w.rooms[i].1)),
{
    lemma_found(w.rooms, w.rooms[i].1.id, i);
}

/// The first room that is listed under an id is found by it.
proof fn lemma_found(rooms: Seq<(u64, RoomModel)>, id: Seq<char>, i: int)
    requires
        0 <= i < rooms.len(),
        rooms[i].1.listed,
        rooms[i].1.id == id,
        forall|j: int| 0 <= j < i ==> !clash((#[trigger] rooms[j]).1, rooms[i].1),
    ensures
        world::find_listed(rooms, id) == Some((rooms[i].0, rooms[i].1)),
    decreases rooms.len(),
{
    if i > 0 {
        assert(!clash(rooms[0].1, rooms[i].1));
        let rest = rooms.skip(1);
        assert(rest[i - 1] == rooms[i]);
        assert forall|j: int| 0 <= j < i - 1 implies !clash(
            (#[trigger] rest[j]).1,
            rest[i - 1].1,
        ) by {
            assert(rest[j] == rooms[j + 1]);
        }
        lemma_found(rest, id, i - 1);
    }
}

/// A server that has just started is in order.
pub proof fn law_start(w: WorldModel)
    requires
        w.rooms.len() == 0,
        w.hub.users.len() == 0,
    ensures
        world::wf(w),
        fair(w),
{
}

} // verus!
