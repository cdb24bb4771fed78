//! What the commands of a client do.
//!
//! A command is answered at once, or it needs something from the service first: then the
//! rules say what to fetch, and go on when it is there.
use crate::bin::BinaryData;
use crate::command::{
    ClientCommand, ClientCommandModel, JoinRoomResponse, JoinRoomResponseModel, JudgeEvent, Message,
    MessageModel, RoomId, ServerCommand, ServerCommandModel, TouchFrame, TouchFrameModel,
};
use crate::hub;
use crate::hub::{Chart, ChartModel, Effect, EffectModel, HubModel, Record, User, UserModel};
use crate::laws;
use crate::replay;
use crate::replay::RECORDER_BOT_USER_ID;
use crate::room;
use crate::room::{InternalRoomState, Phase, Room, RoomModel, Scene};
use crate::stats;
use crate::table;
use crate::text;
use crate::upkeep;
use crate::world;
use crate::world::{World, WorldModel};
use std::collections::HashSet;
use std::sync::Arc;
use vstd::prelude::*;
use vstd::string::*;

verus! {

broadcast use {table::group_views, vstd::std_specs::hash::group_hash_axioms};

/// The texts of refusals in the language of a user.
#[derive(Debug, PartialEq, Eq)]
pub struct Texts {
    pub create_id_occupied: String,
    pub join_room_locked: String,
    pub join_game_ongoing: String,
    pub join_cant_monitor: String,
    pub join_room_full: String,
    pub start_no_chart_selected: String,
    pub chart_select_not_now: String,
    pub chart_not_uploaded_yet: String,
}

/// What the rules need to know of how the server is set up.
#[derive(Debug, PartialEq, Eq)]
pub struct Settings {
    /// The users who may watch.
    pub monitors: Vec<i32>,
    /// The port that shared charts are downloaded from.
    pub web_port: Option<u16>,
    /// The address that shared charts are downloaded from.
    pub public_ip: String,
}

/// Nothing to return, or the text of a refusal.
pub type Refusal = Result<(), Seq<char>>;

/// The text for a user who is in no room.
pub open spec fn no_room() -> Seq<char> {
    "芙宁娜的房间已经关了"@
}

/// The text for a user who is not the host.
pub open spec fn not_host() -> Seq<char> {
    "only host can do this"@
}

/// Whether a result refuses what was asked, with the text that the model gives, or not.
pub open spec fn answers(res: Result<(), String>, m: Refusal) -> bool {
    res.model() == m
}

/// A refusal.
fn refuse(s: &str) -> (res: Result<(), String>)
    ensures
        res.model() == Err::<(), Seq<char>>(s@),
{
    Err(s.to_owned())
}

/// A user says something.
#[verifier::opaque]
pub open spec fn said(w: WorldModel, uid: i32, content: Seq<char>) -> (WorldModel, Refusal) {
    match world::room_of(w, uid) {
        Some((h, r)) => (
            world::with_scene(
                w,
                h,
                room::announced(
                    world::scene_in(w, r),
                    MessageModel::Chat { user: uid, content },
                ),
            ),
            Ok(()),
        ),
        None => (w, Err(no_room())),
    }
}

/// A user touches the screen: in a live room the touches are recorded and the watchers see
/// them.
#[verifier::opaque]
pub open spec fn touched(w: WorldModel, uid: i32, frames: Seq<TouchFrameModel>) -> WorldModel {
    match (world::user_of(w, uid), world::room_of(w, uid)) {
        (Some(u), Some((_, r))) => if r.live {
            let hub = if frames.len() > 0 {
                hub::user_set(w.hub, uid, UserModel { game_time: frames.last().time, ..u })
            } else {
                w.hub
            };
            WorldModel {
                hub: hub::emitted(
                    hub,
                    EffectModel::Send {
                        to: r.monitors,
                        cmd: ServerCommandModel::Touches { player: uid, frames },
                    },
                ),
                replays: replay::touched(w.replays, r.id, uid, frames),
                ..w
            }
        } else {
            w
        },
        _ => w,
    }
}

/// A user hits notes: they are recorded and counted, and in a live room the watchers see
/// them.
#[verifier::opaque]
pub open spec fn judged(w: WorldModel, uid: i32, judges: Seq<JudgeEvent>) -> WorldModel {
    match (world::user_of(w, uid), world::room_of(w, uid)) {
        (Some(u), Some((h, r))) => {
            let s = room::notes_hit(world::scene_in(w, r), uid, u.name, judges);
            let t = world::with_scene(w, h, s);
            WorldModel {
                hub: if r.live {
                    hub::emitted(
                        t.hub,
                        EffectModel::Send {
                            to: r.monitors,
                            cmd: ServerCommandModel::Judges { player: uid, judges },
                        },
                    )
                } else {
                    t.hub
                },
                replays: replay::judged(w.replays, r.id, uid, judges),
                ..t
            }
        },
        _ => w,
    }
}

/// Whether the notes that a user hits fit into the totals of their room.
pub open spec fn judges_fit(w: WorldModel, uid: i32, judges: Seq<JudgeEvent>) -> bool {
    match (world::user_of(w, uid), world::room_of(w, uid)) {
        (Some(u), Some((_, r))) => stats::counts(room::player_stats(r, uid, u.name), judges),
        _ => true,
    }
}

/// A user makes a room of their own.
#[verifier::opaque]
pub open spec fn room_created(w: WorldModel, uid: i32, id: Seq<char>, taken: Seq<char>) -> (
    WorldModel,
    Refusal,
) {
    match world::user_of(w, uid) {
        Some(u) => if u.room is Some {
            (w, Err("already in room"@))
        } else if world::find_listed(w.rooms, id) is Some {
            (w, Err(taken))
        } else {
            let h = w.next_room;
            let s = room::announced(
                Scene {
                    room: room::new_room(id, Some(uid), Some(uid)),
                    hub: hub::user_set(w.hub, uid, UserModel { room: Some(h), ..u }),
                },
                MessageModel::CreateRoom { user: uid, name: u.name },
            );
            let t = world::with_scene(w, h, s);
            (
                WorldModel {
                    hub: hub::emitted(
                        hub::emitted(t.hub, EffectModel::RoomsChanged),
                        EffectModel::WatchersJoin { room: h, creator: uid },
                    ),
                    next_room: (h + 1) as u64,
                    replays: replay::player_came(
                        replay::player_came(
                            replay::created(w.replays, id, 0, Seq::empty()),
                            id,
                            uid,
                            u.name,
                        ),
                        id,
                        RECORDER_BOT_USER_ID,
                        replay::recorder_name(),
                    ),
                    ..t
                },
                Ok(()),
            )
        },
        None => (w, Err(no_room())),
    }
}

/// The greeting of someone who joins a room.
pub open spec fn greeting(name: Seq<char>, web_port: Option<u16>) -> Seq<char> {
    "欢迎 "@ + name + " 加入房间！"@ + (if web_port is Some {
        "你可以使用【云崽】芙卡洛斯的 #phira 指令来查看该服务器的房间列表。"@
    } else {
        ""@
    })
}

/// The room after someone has joined it, before they are told.
pub open spec fn join_scene(
    w: WorldModel,
    r: RoomModel,
    u: UserModel,
    monitor: bool,
    web_port: Option<u16>,
) -> Scene {
    let v = UserModel { monitor, ..u };
    let a = room::added(r, u.id, monitor).0;
    let s = Scene {
        room: RoomModel { live: a.live || monitor, ..a },
        hub: hub::user_set(w.hub, u.id, v),
    };
    room::announced(
        room::broadcast_to(
            room::broadcast_to(s, ServerCommandModel::OnJoinRoom(hub::info(v))),
            ServerCommandModel::Message(
                MessageModel::Chat { user: 0, content: greeting(u.name, web_port) },
            ),
        ),
        MessageModel::JoinRoom { user: u.id, name: u.name },
    )
}

/// The reason why a user cannot join a room, if there is one.
pub open spec fn join_refusal(
    w: WorldModel,
    u: UserModel,
    id: Seq<char>,
    monitor: bool,
    settings: Settings,
    texts: Texts,
) -> Option<Seq<char>> {
    if u.room is Some {
        Some("already in room"@)
    } else {
        match world::find_listed(w.rooms, id) {
            Some((_, r)) => if r.locked {
                Some(texts.join_room_locked@)
            } else if !(r.phase is SelectChart) {
                Some(texts.join_game_ongoing@)
            } else if monitor && !settings.monitors@.contains(u.id) {
                Some(texts.join_cant_monitor@)
            } else if !room::added(r, u.id, monitor).1 {
                Some(texts.join_room_full@)
            } else {
                None
            },
            None => Some("芙宁娜都还没开房间呢，这么着急干啥？"@),
        }
    }
}

/// A user joins a room.
#[verifier::opaque]
pub open spec fn room_joined(
    w: WorldModel,
    uid: i32,
    id: Seq<char>,
    monitor: bool,
    settings: Settings,
    texts: Texts,
) -> (WorldModel, Result<JoinRoomResponseModel, Seq<char>>) {
    match world::user_of(w, uid) {
        Some(u) => match join_refusal(w, u, id, monitor, settings, texts) {
            Some(t) => (w, Err(t)),
            None => {
                let (h, r) = world::find_listed(w.rooms, id)->Some_0;
                let s = join_scene(w, r, u, monitor, settings.web_port);
                let v = UserModel { monitor, room: Some(h), ..u };
                let hub = hub::emitted(
                    hub::emitted(hub::user_set(s.hub, uid, v), EffectModel::RoomsChanged),
                    EffectModel::SessionsChanged,
                );
                (
                    WorldModel {
                        hub,
                        rooms: table::put(w.rooms, h, s.room),
                        replays: if monitor {
                            w.replays
                        } else {
                            replay::player_came(w.replays, id, uid, u.name)
                        },
                        ..w
                    },
                    Ok(
                        JoinRoomResponseModel {
                            state: room::room_shown(s.room),
                            users: room::infos(room::members(s.room), hub.users),
                            live: s.room.live,
                        },
                    ),
                )
            },
        },
        None => (w, Err(no_room())),
    }
}

/// A user leaves their room.
#[verifier::opaque]
pub open spec fn room_left(w: WorldModel, uid: i32, pick: Option<i32>) -> (WorldModel, Refusal) {
    match world::room_of(w, uid) {
        Some(_) => (
            world::emitted(
                world::emitted(world::left_room(w, uid, pick), EffectModel::RoomsChanged),
                EffectModel::SessionsChanged,
            ),
            Ok(()),
        ),
        None => (w, Err(no_room())),
    }
}

/// What the host does to their room, and that only the host may.
pub open spec fn as_host(w: WorldModel, uid: i32) -> Result<(u64, RoomModel), Seq<char>> {
    match world::room_of(w, uid) {
        Some((h, r)) => if r.host == Some(uid) {
            Ok((h, r))
        } else {
            Err(not_host())
        },
        None => Err(no_room()),
    }
}

/// The host locks the room or opens it.
#[verifier::opaque]
pub open spec fn locked(w: WorldModel, uid: i32, lock: bool) -> (WorldModel, Refusal) {
    match as_host(w, uid) {
        Ok((h, r)) => (
            world::with_scene(
                w,
                h,
                room::announced(
                    world::scene_in(w, RoomModel { locked: lock, ..r }),
                    MessageModel::LockRoom { lock },
                ),
            ),
            Ok(()),
        ),
        Err(t) => (w, Err(t)),
    }
}

/// The host lets the players take turns, or not.
#[verifier::opaque]
pub open spec fn cycled(w: WorldModel, uid: i32, cycle: bool) -> (WorldModel, Refusal) {
    match as_host(w, uid) {
        Ok((h, r)) => (
            world::with_scene(
                w,
                h,
                room::announced(
                    world::scene_in(w, RoomModel { cycle, ..r }),
                    MessageModel::CycleRoom { cycle },
                ),
            ),
            Ok(()),
        ),
        Err(t) => (w, Err(t)),
    }
}

/// What is to be fetched from the service before a command can be answered.
#[derive(Debug, Clone, Copy, PartialEq, Eq, Structural)]
pub enum Fetch {
    /// A chart that the host of a room has chosen; `online` if it replaces a shared one.
    Chart { room: u64, id: i32, online: bool },
    /// The result of a game in a room.
    Record { room: u64, id: i32 },
}

/// The host may choose a chart of the service.
#[verifier::opaque]
pub open spec fn chart_choice(w: WorldModel, uid: i32, id: i32) -> Result<Fetch, Seq<char>> {
    match world::room_of(w, uid) {
        Some((h, r)) => if !(r.phase is SelectChart) {
            Err("invalid state"@)
        } else if r.host != Some(uid) {
            Err(not_host())
        } else {
            Ok(Fetch::Chart { room: h, id, online: false })
        },
        None => Err(no_room()),
    }
}

/// The host goes back to a chart of the service: what is shared is no longer.
#[verifier::opaque]
pub open spec fn online_choice(w: WorldModel, uid: i32, id: i32, not_now: Seq<char>) -> (
    WorldModel,
    Result<Fetch, Seq<char>>,
) {
    match as_host(w, uid) {
        Ok((h, r)) => if r.phase is LocalChart {
            (
                world::with_scene(
                    w,
                    h,
                    Scene {
                        room: RoomModel { local_chart: None, phase: Phase::SelectChart, ..r },
                        hub: room::broadcast_to(
                            world::scene_in(w, r),
                            ServerCommandModel::ChangeLocalChart {
                                local: false,
                                chart_id: Seq::empty(),
                            },
                        ).hub,
                    },
                ),
                Ok(Fetch::Chart { room: h, id, online: true }),
            )
        } else if r.phase is SelectChart {
            (w, Ok(Fetch::Chart { room: h, id, online: true }))
        } else {
            (w, Err(not_now))
        },
        Err(t) => (w, Err(t)),
    }
}

/// The chart that the host has chosen is there.
#[verifier::opaque]
pub open spec fn chart_chosen(w: WorldModel, uid: i32, h: u64, chart: ChartModel, online: bool) ->
    WorldModel {
    match table::lookup(w.rooms, h) {
        Some(r) => {
            let s = room::announced(
                world::scene_in(w, r),
                MessageModel::SelectChart { user: uid, name: chart.name, id: chart.id },
            );
            let t = world::with_scene(
                w,
                h,
                room::state_changed(
                    Scene { room: RoomModel { chart: Some(chart), ..s.room }, ..s },
                ),
            );
            WorldModel {
                replays: if online {
                    w.replays
                } else {
                    replay::chart_set(w.replays, r.id, chart.id, chart.name)
                },
                ..t
            }
        },
        None => w,
    }
}

/// The host shares a chart of their own.
#[verifier::opaque]
pub open spec fn local_chosen(w: WorldModel, uid: i32, id: Seq<char>, name: Seq<char>) -> (
    WorldModel,
    Refusal,
) {
    match world::room_of(w, uid) {
        Some((h, r)) => if !(r.phase is SelectChart) {
            (w, Err("invalid state"@))
        } else if r.host != Some(uid) {
            (w, Err(not_host()))
        } else {
            (
                world::with_scene(
                    w,
                    h,
                    room::state_changed(
                        room::announced(
                            room::broadcast_to(
                                world::scene_in(
                                    w,
                                    RoomModel {
                                        local_chart: Some((id, name)),
                                        phase: Phase::LocalChart { started: Set::empty() },
                                        ..r
                                    },
                                ),
                                ServerCommandModel::ChangeLocalChart { local: true, chart_id: id },
                            ),
                            MessageModel::SelectLocalChart { user: uid, name, id },
                        ),
                    ),
                ),
                Ok(()),
            )
        },
        None => (w, Err(no_room())),
    }
}

/// The players who are told to fetch the shared chart: all but the host and the recorder.
pub open spec fn receivers(users: Seq<i32>, host: i32) -> Seq<i32>
    decreases users.len(),
{
    if users.len() == 0 {
        users
    } else {
        let front = receivers(users.drop_last(), host);
        if users.last() == host || users.last() == RECORDER_BOT_USER_ID {
            front
        } else {
            front.push(users.last())
        }
    }
}

/// Whether a game is on that a user is not done with.
pub open spec fn still_playing(r: RoomModel, uid: i32) -> bool {
    r.phase matches Phase::Playing { results, aborted } && !results.dom().contains(uid)
        && !aborted.contains(uid)
}

/// A host who hands out a chart would end a game that leaves the room without a host.
pub open spec fn send_stuck(w: WorldModel, uid: i32) -> bool {
    as_host(w, uid) matches Ok((_, r)) && r.local_chart is Some && room::no_successor(r)
}

/// A user who gives up would end a game that leaves the room without a host.
pub open spec fn abort_stuck(w: WorldModel, uid: i32) -> bool {
    world::room_of(w, uid) matches Some((_, r)) && still_playing(r, uid) && room::no_successor(r)
}

/// A result would end a game that leaves the room without a host.
pub open spec fn record_stuck(w: WorldModel, uid: i32, h: u64, record: Record) -> bool {
    record.player == uid && (table::lookup(w.rooms, h) matches Some(r) && still_playing(r, uid)
        && room::no_successor(r))
}

/// The host hands out the shared chart.
#[verifier::opaque]
pub open spec fn chart_sent(
    w: WorldModel,
    uid: i32,
    settings: Settings,
    none_selected: Seq<char>,
) -> (WorldModel, Refusal) {
    match (as_host(w, uid), world::user_of(w, uid)) {
        (Ok((h, r)), Some(u)) => match r.local_chart {
            Some((chart_id, chart_name)) => {
                let s = room::announced(
                    world::scene_in(w, r),
                    MessageModel::SendChart { user: uid },
                );
                let t = Scene {
                    hub: hub::emitted(
                        s.hub,
                        EffectModel::Send {
                            to: receivers(r.users, uid),
                            cmd: ServerCommandModel::StartDownload {
                                host_id: uid,
                                host_name: u.name,
                                addr: settings.public_ip@,
                                port: match settings.web_port {
                                    Some(p) => p,
                                    None => 0,
                                },
                                chart_id,
                                chart_name,
                            },
                        },
                    ),
                    ..s
                };
                (world::with_scene(w, h, room::checked(t)), Ok(()))
            },
            None => (w, Err(none_selected)),
        },
        (Err(t), _) => (w, Err(t)),
        _ => (w, Err(no_room())),
    }
}

/// A player has got the shared chart.
#[verifier::opaque]
pub open spec fn downloaded(w: WorldModel, uid: i32, not_uploaded: Seq<char>) -> (
    WorldModel,
    Refusal,
) {
    match world::room_of(w, uid) {
        Some((h, r)) => if !r.uploaded {
            (w, Err(not_uploaded))
        } else {
            match r.phase {
                Phase::LocalChart { started } => if started.contains(uid) {
                    (w, Err("already ready"@))
                } else {
                    (
                        world::with_scene(
                            w,
                            h,
                            room::checked(
                                room::announced(
                                    world::scene_in(
                                        w,
                                        RoomModel {
                                            phase: Phase::LocalChart {
                                                started: started.insert(uid),
                                            },
                                            ..r
                                        },
                                    ),
                                    MessageModel::DownloadReady { user: uid },
                                ),
                            ),
                        ),
                        Ok(()),
                    )
                },
                _ => (w, Ok(())),
            }
        },
        None => (w, Err(no_room())),
    }
}

/// A user leaves a shared chart with the server.
#[verifier::opaque]
pub open spec fn uploaded(w: WorldModel, uid: i32, id: Seq<char>, data: Seq<u8>) -> WorldModel {
    let v = WorldModel {
        hub: HubModel { charts: table::put(w.hub.charts, id, data), ..w.hub },
        ..w
    };
    match world::room_of(w, uid) {
        Some((h, r)) => WorldModel {
            rooms: table::put(v.rooms, h, RoomModel { uploaded: true, ..r }),
            ..v
        },
        None => v,
    }
}

/// The host stops sharing a chart.
#[verifier::opaque]
pub open spec fn local_canceled(w: WorldModel, uid: i32) -> (WorldModel, Refusal) {
    match as_host(w, uid) {
        Ok((h, r)) => {
            let hub = match r.local_chart {
                Some((id, _)) => HubModel { charts: table::without(w.hub.charts, id), ..w.hub },
                None => w.hub,
            };
            let room = RoomModel {
                uploaded: false,
                phase: if r.phase is LocalChart {
                    Phase::LocalChart { started: Set::empty() }
                } else {
                    r.phase
                },
                ..r
            };
            (
                world::with_scene(
                    w,
                    h,
                    room::state_changed(
                        room::broadcast_to(
                            Scene { room, hub },
                            ServerCommandModel::LocalChartCanceled,
                        ),
                    ),
                ),
                Ok(()),
            )
        },
        Err(t) => (w, Err(t)),
    }
}

/// A player takes back that they have got the shared chart.
#[verifier::opaque]
pub open spec fn download_canceled(w: WorldModel, uid: i32) -> (WorldModel, Refusal) {
    match world::room_of(w, uid) {
        Some((h, r)) => match r.phase {
            Phase::LocalChart { started } => (
                WorldModel {
                    rooms: table::put(
                        w.rooms,
                        h,
                        RoomModel {
                            phase: Phase::LocalChart { started: started.remove(uid) },
                            ..r
                        },
                    ),
                    ..w
                },
                Ok(()),
            ),
            _ => (w, Ok(())),
        },
        None => (w, Err(no_room())),
    }
}

/// The room after the host has asked for a game, before anybody else is ready.
pub open spec fn asked_scene(w: WorldModel, r: RoomModel, uid: i32, h: u64) -> Scene {
    let s = room::announced(
        room::times_reset(world::scene_in(w, r)),
        MessageModel::GameStart { user: uid },
    );
    let t = room::state_changed(
        Scene {
            room: RoomModel {
                phase: Phase::WaitForReady { started: Set::empty().insert(uid) },
                ..s.room
            },
            ..s
        },
    );
    Scene { hub: hub::emitted(t.hub, EffectModel::WatchersReady { room: h }), ..t }
}

/// The host asks for a game, or for the shared chart to be handed out.
#[verifier::opaque]
pub open spec fn start_requested(w: WorldModel, uid: i32, none_selected: Seq<char>) -> (
    WorldModel,
    Refusal,
) {
    match as_host(w, uid) {
        Ok((h, r)) => if r.phase is LocalChart {
            match r.local_chart {
                Some((chart_id, chart_name)) => (
                    WorldModel {
                        hub: hub::told(
                            w.hub,
                            uid,
                            ServerCommandModel::StartServing { chart_id, chart_name },
                        ),
                        ..w
                    },
                    Ok(()),
                ),
                None => (w, Err(none_selected)),
            }
        } else if r.chart is None {
            (w, Err(none_selected))
        } else {
            (world::with_scene(w, h, room::checked(asked_scene(w, r, uid, h))), Ok(()))
        },
        Err(t) => (w, Err(t)),
    }
}

/// A user is ready.
#[verifier::opaque]
pub open spec fn readied(w: WorldModel, uid: i32) -> (WorldModel, Refusal) {
    match world::room_of(w, uid) {
        Some((h, r)) => match r.phase {
            Phase::WaitForReady { started } => if started.contains(uid) {
                (w, Err("already ready"@))
            } else {
                (
                    world::with_scene(
                        w,
                        h,
                        room::checked(
                            room::announced(
                                world::scene_in(
                                    w,
                                    RoomModel {
                                        phase: Phase::WaitForReady {
                                            started: started.insert(uid),
                                        },
                                        ..r
                                    },
                                ),
                                MessageModel::Ready { user: uid },
                            ),
                        ),
                    ),
                    Ok(()),
                )
            },
            _ => (w, Ok(())),
        },
        None => (w, Err(no_room())),
    }
}

/// A user is no longer ready; if it is the host, there is no game.
#[verifier::opaque]
pub open spec fn ready_canceled(w: WorldModel, uid: i32) -> (WorldModel, Refusal) {
    match world::room_of(w, uid) {
        Some((h, r)) => match r.phase {
            Phase::WaitForReady { started } => if !started.contains(uid) {
                (w, Err("not ready"@))
            } else {
                let s = world::scene_in(
                    w,
                    RoomModel {
                        phase: Phase::WaitForReady { started: started.remove(uid) },
                        ..r
                    },
                );
                (
                    world::with_scene(
                        w,
                        h,
                        if r.host == Some(uid) {
                            let t = room::announced(s, MessageModel::CancelGame { user: uid });
                            room::state_changed(
                                Scene {
                                    room: RoomModel { phase: Phase::SelectChart, ..t.room },
                                    ..t
                                },
                            )
                        } else {
                            room::announced(s, MessageModel::CancelReady { user: uid })
                        },
                    ),
                    Ok(()),
                )
            },
            _ => (w, Ok(())),
        },
        None => (w, Err(no_room())),
    }
}

/// A user gives a game up.
#[verifier::opaque]
pub open spec fn aborted(w: WorldModel, uid: i32) -> (WorldModel, Refusal) {
    match world::room_of(w, uid) {
        Some((h, r)) => match r.phase {
            Phase::Playing { results, aborted } => if results.dom().contains(uid) {
                (w, Err("already uploaded"@))
            } else if aborted.contains(uid) {
                (w, Err("aborted"@))
            } else {
                (
                    world::with_scene(
                        w,
                        h,
                        room::checked(
                            room::announced(
                                world::scene_in(
                                    w,
                                    RoomModel {
                                        phase: Phase::Playing {
                                            results,
                                            aborted: aborted.insert(uid),
                                        },
                                        ..r
                                    },
                                ),
                                MessageModel::Abort { user: uid },
                            ),
                        ),
                    ),
                    Ok(()),
                )
            },
            _ => (w, Ok(())),
        },
        None => (w, Err(no_room())),
    }
}

/// The answer to the choice of a chart.
pub open spec fn chart_reply(r: Refusal, online: bool) -> ServerCommandModel {
    if online {
        ServerCommandModel::SelectOnlineChart(r)
    } else {
        ServerCommandModel::SelectChart(r)
    }
}

/// The result of a user's game is there.
#[verifier::opaque]
pub open spec fn finished(w: WorldModel, uid: i32, h: u64, record: Record) -> (
    WorldModel,
    Refusal,
) {
    if record.player != uid {
        (w, Err("invalid record"@))
    } else {
        match table::lookup(w.rooms, h) {
            Some(r) => {
                let s = room::announced(
                    world::scene_in(w, r),
                    MessageModel::Played {
                        user: uid,
                        score: record.score,
                        accuracy: record.accuracy,
                        full_combo: record.full_combo,
                    },
                );
                match r.phase {
                    Phase::Playing { results, aborted } => if aborted.contains(uid) {
                        (world::with_scene(w, h, s), Err("aborted"@))
                    } else {
                        let after = results.insert(uid, record);
                        let t = Scene {
                            room: RoomModel {
                                phase: Phase::Playing { results: after, aborted },
                                ..s.room
                            },
                            ..s
                        };
                        if results.dom().contains(uid) {
                            (world::with_scene(w, h, t), Err("already uploaded"@))
                        } else {
                            let v = world::with_scene(w, h, room::checked(t));
                            (
                                if room::all_done(t.room, after, aborted) {
                                    world::emitted(v, EffectModel::SaveReplays { room: r.id })
                                } else {
                                    v
                                },
                                Ok(()),
                            )
                        }
                    },
                    _ => (world::with_scene(w, h, s), Ok(())),
                }
            },
            None => (w, Ok(())),
        }
    }
}

impl World {
    /// The number of the room that a user is the host of.
    fn hosted_room(&self, uid: i32) -> (res: Result<u64, &'static str>)
        ensures
            match as_host(self@, uid) {
                Ok((h, _)) => res == Ok::<u64, &'static str>(h),
                Err(t) => res matches Err(e) && e@ == t,
            },
    {
        match self.room_handle(uid) {
            Some(h) => match self.rooms.get(&h) {
                Some(room) => {
                    if room.check_host(uid) {
                        Ok(h)
                    } else {
                        Err("only host can do this")
                    }
                },
                None => Err("芙宁娜的房间已经关了"),
            },
            None => Err("芙宁娜的房间已经关了"),
        }
    }

    /// A user says something.
    pub fn say(&mut self, uid: i32, content: String) -> (res: Result<(), String>)
        ensures
            (final(self)@, res.model()) == said(old(self)@, uid, content@),
    {
        reveal(said);
        match self.room_handle(uid) {
            Some(h) => {
                if let Some(room) = self.rooms.get_mut(&h) {
                    room.send_as(&mut self.hub, uid, content);
                }
                Ok(())
            },
            None => refuse("芙宁娜的房间已经关了"),
        }
    }

    /// A user touches the screen.
    pub fn touch(&mut self, uid: i32, frames: Arc<Vec<TouchFrame>>)
        ensures
            final(self)@ == touched(old(self)@, uid, frames.model()),
    {
        reveal(touched);
        let h: u64 = match self.room_handle(uid) {
            Some(h) => h,
            None => {
                return;
            },
        };
        if let Some(room) = self.rooms.get(&h) {
            if room.is_live() {
                let n: usize = frames.len();
                if n > 0 {
                    let time: u32 = frames[n - 1].time;
                    assert(frames.model().last().time == time);
                    if let Some(user) = self.hub.users.get_mut(&uid) {
                        user.game_time = time;
                    }
                }
                let room_id: String = room.id.to_string();
                self.replay_manager.record_touch_frames(&room_id, uid, &*frames);
                room.broadcast_monitors(
                    &mut self.hub,
                    ServerCommand::Touches { player: uid, frames },
                );
            }
        }
    }

    /// Whether the notes that a user hits fit into the totals of their room.
    pub fn judges_allowed(&self, uid: i32, judges: &Vec<JudgeEvent>) -> (res: bool)
        ensures
            res == judges_fit(self@, uid, judges@),
    {
        match (self.room_handle(uid), self.hub.users.get(&uid)) {
            (Some(h), Some(user)) => match self.rooms.get(&h) {
                Some(room) => room.judgements_fit(uid, &user.name, judges),
                None => true,
            },
            _ => true,
        }
    }

    /// A user hits notes.
    pub fn judge(&mut self, uid: i32, judges: Arc<Vec<JudgeEvent>>)
        requires
            judges_fit(old(self)@, uid, judges.model()),
        ensures
            final(self)@ == judged(old(self)@, uid, judges.model()),
    {
        reveal(judged);
        assert(judges.model() =~= (*judges)@);
        let h: u64 = match self.room_handle(uid) {
            Some(h) => h,
            None => {
                return;
            },
        };
        let name: String = match self.hub.users.get(&uid) {
            Some(user) => user.name.clone(),
            None => {
                return;
            },
        };
        if let Some(room) = self.rooms.get_mut(&h) {
            let room_id: String = room.id.to_string();
            self.replay_manager.record_judge_events(&room_id, uid, &*judges);
            room.update_judgement_stats_batch(&mut self.hub, uid, name, &*judges);
            if room.is_live() {
                room.broadcast_monitors(
                    &mut self.hub,
                    ServerCommand::Judges { player: uid, judges },
                );
            }
        }
    }

    /// A user makes a room of their own.
    pub fn create_room(&mut self, uid: i32, id: RoomId, texts: &Texts) -> (res: Result<(), String>)
        requires
            old(self)@.next_room < u64::MAX,
            world::user_of(old(self)@, uid) is Some,
        ensures
            (final(self)@, res.model()) == room_created(
                old(self)@,
                uid,
                id@,
                texts.create_id_occupied@,
            ),
    {
        reveal(room_created);
        let h: u64 = self.next_room;
        let (name, inside): (String, bool) = match self.hub.users.get(&uid) {
            Some(user) => (user.name.clone(), user.room.is_some()),
            None => {
                return refuse("芙宁娜的房间已经关了");
            },
        };
        if inside {
            return refuse("already in room");
        }
        if self.listed_room(&id).is_some() {
            return Err(texts.create_id_occupied.clone());
        }
        let room: Room = Room::new(id.clone(), Some(uid), Some(uid));
        if let Some(user) = self.hub.users.get_mut(&uid) {
            user.room = Some(h);
        }
        room.send(&mut self.hub, Message::CreateRoom { user: uid, name: name.clone() });
        let _ = self.rooms.insert(h, room);
        self.next_room = h + 1;
        self.hub.emit(Effect::RoomsChanged);
        let room_id: String = id.to_string();
        let empty: String = String::new();
        assert(empty@ =~= Seq::empty());
        let _ = self.replay_manager.create_room_manager(room_id.clone(), 0, empty);
        self.replay_manager.init_player(&room_id, uid, name);
        self.replay_manager.init_player(
            &room_id,
            RECORDER_BOT_USER_ID,
            replay::recorder_bot_user_name(),
        );
        self.hub.emit(Effect::WatchersJoin { room: h, creator: uid });
        Ok(())
    }

    /// The reason why a user cannot join a room, if there is one; and the room.
    fn join_refusal(
        &self,
        user: &User,
        id: &RoomId,
        monitor: bool,
        settings: &Settings,
        texts: &Texts,
    ) -> (res: Result<u64, String>)
        requires
            table::distinct(self@.rooms),
        ensures
            match join_refusal(self@, user@, id@, monitor, *settings, *texts) {
                Some(t) => res matches Err(e) && e@ == t,
                None => res matches Ok(h) && (world::find_listed(self@.rooms, id@) matches Some((
                    g,
                    r,
                )) && g == h),
            },
    {
        if user.room.is_some() {
            return Err("already in room".to_owned());
        }
        let h: u64 = match self.listed_room(id) {
            Some(h) => h,
            None => {
                return Err("芙宁娜都还没开房间呢，这么着急干啥？".to_owned());
            },
        };
        proof {
            world::lemma_listed(self@.rooms, id@);
        }
        match self.rooms.get(&h) {
            Some(room) => {
                if room.locked {
                    return Err(texts.join_room_locked.clone());
                }
                if !matches!(room.state, InternalRoomState::SelectChart) {
                    return Err(texts.join_game_ongoing.clone());
                }
                if monitor && !text::contains_id(&settings.monitors, user.id) {
                    return Err(texts.join_cant_monitor.clone());
                }
                if !monitor && room.users.len() >= room::ROOM_MAX_USERS {
                    return Err(texts.join_room_full.clone());
                }
                Ok(h)
            },
            None => Ok(h),
        }
    }

    /// A user joins a room.
    pub fn join_room(
        &mut self,
        uid: i32,
        id: RoomId,
        monitor: bool,
        settings: &Settings,
        texts: &Texts,
    ) -> (res: Result<JoinRoomResponse, String>)
        requires
            world::ids_ok(old(self)@.hub.users),
            table::distinct(old(self)@.rooms),
            world::user_of(old(self)@, uid) is Some,
        ensures
            (final(self)@, res.model()) == room_joined(
                old(self)@,
                uid,
                id@,
                monitor,
                *settings,
                *texts,
            ),
    {
        reveal(room_joined);
        proof {
            world::lemma_user_id(self@.hub.users, uid);
        }
        let (h, name): (u64, String) = match self.hub.users.get(&uid) {
            Some(user) => match self.join_refusal(user, &id, monitor, settings, texts) {
                Ok(h) => (h, user.name.clone()),
                Err(e) => {
                    return Err(e);
                },
            },
            None => {
                return Err("芙宁娜的房间已经关了".to_owned());
            },
        };
        proof {
            world::lemma_listed(self@.rooms, id@);
        }
        let ghost u = world::user_of(self@, uid)->Some_0;
        let ghost r = world::find_listed(self@.rooms, id@)->Some_0.1;
        let ghost before = self@;
        let mut content: String = "欢迎 ".to_owned();
        content.append(name.as_str());
        content.append(" 加入房间！");
        content.append(
            if settings.web_port.is_some() {
                "你可以使用【云崽】芙卡洛斯的 #phira 指令来查看该服务器的房间列表。"
            } else {
                ""
            },
        );
        assert(content@ == greeting(u.name, settings.web_port));
        if let Some(room) = self.rooms.get_mut(&h) {
            let _ = room.add_user(uid, monitor);
            if let Some(user) = self.hub.users.get_mut(&uid) {
                user.monitor = monitor;
            }
            if monitor {
                room.live = true;
            }
            let ghost v = UserModel { monitor, ..u };
            proof {
                table::lemma_put_lookup(before.hub.users, uid, v, uid);
            }
            if let Some(user) = self.hub.users.get(&uid) {
                let info = user.to_info();
                room.broadcast(&mut self.hub, ServerCommand::OnJoinRoom(info));
            }
            room.broadcast(
                &mut self.hub,
                ServerCommand::Message(Message::Chat { user: 0, content }),
            );
            room.send(&mut self.hub, Message::JoinRoom { user: uid, name: name.clone() });
            assert(room::scene(*room, self.hub) == join_scene(
                before,
                r,
                u,
                monitor,
                settings.web_port,
            ));
            if let Some(user) = self.hub.users.get_mut(&uid) {
                user.room = Some(h);
            }
        }
        let ghost s = join_scene(before, r, u, monitor, settings.web_port);
        if !monitor {
            let room_id: String = id.to_string();
            self.replay_manager.init_player(&room_id, uid, name);
        }
        self.hub.emit(Effect::RoomsChanged);
        self.hub.emit(Effect::SessionsChanged);
        proof {
            table::lemma_put_lookup(before.rooms, h, s.room, h);
        }
        match self.rooms.get(&h) {
            Some(room) => {
                let response = JoinRoomResponse {
                    state: room.client_room_state(),
                    users: room.member_infos(&self.hub.users),
                    live: room.is_live(),
                };
                Ok(response)
            },
            None => Err("芙宁娜的房间已经关了".to_owned()),
        }
    }

    /// A user leaves their room; `pick` becomes its host if they were.
    pub fn leave(&mut self, uid: i32, pick: Option<i32>) -> (res: Result<(), String>)
        requires
            world::ids_ok(old(self)@.hub.users),
            world::can_leave(old(self)@, uid),
            room::valid_pick(pick, world::successors(old(self)@, uid)),
        ensures
            (final(self)@, res.model()) == room_left(old(self)@, uid, pick),
    {
        reveal(room_left);
        if self.room_handle(uid).is_none() {
            return refuse("芙宁娜的房间已经关了");
        }
        self.leave_room(uid, pick);
        self.hub.emit(Effect::RoomsChanged);
        self.hub.emit(Effect::SessionsChanged);
        Ok(())
    }

    /// The host locks the room or opens it.
    pub fn lock_room(&mut self, uid: i32, lock: bool) -> (res: Result<(), String>)
        ensures
            (final(self)@, res.model()) == locked(old(self)@, uid, lock),
    {
        reveal(locked);
        match self.hosted_room(uid) {
            Ok(h) => {
                if let Some(room) = self.rooms.get_mut(&h) {
                    room.locked = lock;
                    room.send(&mut self.hub, Message::LockRoom { lock });
                }
                Ok(())
            },
            Err(e) => refuse(e),
        }
    }

    /// The host lets the players take turns, or not.
    pub fn cycle_room(&mut self, uid: i32, cycle: bool) -> (res: Result<(), String>)
        ensures
            (final(self)@, res.model()) == cycled(old(self)@, uid, cycle),
    {
        reveal(cycled);
        match self.hosted_room(uid) {
            Ok(h) => {
                if let Some(room) = self.rooms.get_mut(&h) {
                    room.cycle = cycle;
                    room.send(&mut self.hub, Message::CycleRoom { cycle });
                }
                Ok(())
            },
            Err(e) => refuse(e),
        }
    }

    /// The host chooses a chart of the service.
    pub fn choose_chart(&self, uid: i32, id: i32) -> (res: Result<Fetch, String>)
        ensures
            match chart_choice(self@, uid, id) {
                Ok(f) => res matches Ok(g) && g == f,
                Err(t) => res matches Err(e) && e@ == t,
            },
    {
        reveal(chart_choice);
        match self.room_handle(uid) {
            Some(h) => match self.rooms.get(&h) {
                Some(room) => {
                    if !matches!(room.state, InternalRoomState::SelectChart) {
                        Err("invalid state".to_owned())
                    } else if !room.check_host(uid) {
                        Err("only host can do this".to_owned())
                    } else {
                        Ok(Fetch::Chart { room: h, id, online: false })
                    }
                },
                None => Err("芙宁娜的房间已经关了".to_owned()),
            },
            None => Err("芙宁娜的房间已经关了".to_owned()),
        }
    }

    /// The host goes back to a chart of the service.
    pub fn choose_online_chart(&mut self, uid: i32, id: i32, texts: &Texts) -> (res: Result<
        Fetch,
        String,
    >)
        ensures
            final(self)@ == online_choice(
                old(self)@,
                uid,
                id,
                texts.chart_select_not_now@,
            ).0,
            match online_choice(old(self)@, uid, id, texts.chart_select_not_now@).1 {
                Ok(f) => res matches Ok(g) && g == f,
                Err(t) => res matches Err(e) && e@ == t,
            },
    {
        reveal(online_choice);
        let h: u64 = match self.hosted_room(uid) {
            Ok(h) => h,
            Err(e) => {
                return Err(e.to_owned());
            },
        };
        let (local, idle): (bool, bool) = match self.rooms.get(&h) {
            Some(room) => (
                matches!(room.state, InternalRoomState::LocalChart { .. }),
                matches!(room.state, InternalRoomState::SelectChart),
            ),
            None => (false, false),
        };
        if local {
            if let Some(room) = self.rooms.get_mut(&h) {
                room.local_chart = None;
                let chart_id: String = String::new();
                assert(chart_id@ =~= Seq::empty());
                room.broadcast(
                    &mut self.hub,
                    ServerCommand::ChangeLocalChart { local: false, chart_id },
                );
                room.state = InternalRoomState::SelectChart;
            }
        } else if !idle {
            return Err(texts.chart_select_not_now.clone());
        }
        Ok(Fetch::Chart { room: h, id, online: true })
    }

    /// The chart that the host has chosen is there.
    pub fn chart_fetched(&mut self, uid: i32, h: u64, chart: Chart, online: bool)
        ensures
            final(self)@ == chart_chosen(old(self)@, uid, h, chart@, online),
            world::wf(old(self)@) ==> world::wf(final(self)@),
    {
        proof {
            if world::wf(self@) {
                upkeep::law_chart_chosen(self@, uid, h, chart@, online);
            }
        }
        reveal(chart_chosen);
        if let Some(room) = self.rooms.get_mut(&h) {
            if !online {
                let room_id: String = room.id.to_string();
                self.replay_manager.set_chart(&room_id, chart.id, chart.name.clone());
            }
            room.send(
                &mut self.hub,
                Message::SelectChart { user: uid, name: chart.name.clone(), id: chart.id },
            );
            room.chart = Some(chart);
            room.on_state_change(&mut self.hub);
        }
    }

    /// Answers the host who has chosen a chart, once it is there or could not be fetched.
    pub fn answer_chart(
        &mut self,
        uid: i32,
        h: u64,
        fetched: Result<Chart, String>,
        online: bool,
    ) -> (res: ServerCommand)
        ensures
            match fetched {
                Ok(chart) => {
                    &&& final(self)@ == chart_chosen(old(self)@, uid, h, chart@, online)
                    &&& res.model() == chart_reply(Ok(()), online)
                },
                Err(t) => {
                    &&& final(self)@ == old(self)@
                    &&& res.model() == chart_reply(Err(t@), online)
                },
            },
            world::wf(old(self)@) ==> world::wf(final(self)@),
    {
        let result: Result<(), String> = match fetched {
            Ok(chart) => {
                self.chart_fetched(uid, h, chart, online);
                Ok(())
            },
            Err(t) => Err(t),
        };
        if online {
            ServerCommand::SelectOnlineChart(result)
        } else {
            ServerCommand::SelectChart(result)
        }
    }

    /// The host shares a chart of their own.
    pub fn choose_local_chart(&mut self, uid: i32, id: String, name: String) -> (res: Result<
        (),
        String,
    >)
        ensures
            (final(self)@, res.model()) == local_chosen(old(self)@, uid, id@, name@),
    {
        reveal(local_chosen);
        let h: u64 = match self.room_handle(uid) {
            Some(h) => h,
            None => {
                return refuse("芙宁娜的房间已经关了");
            },
        };
        if let Some(room) = self.rooms.get(&h) {
            if !matches!(room.state, InternalRoomState::SelectChart) {
                return refuse("invalid state");
            }
            if !room.check_host(uid) {
                return refuse("only host can do this");
            }
        }
        if let Some(room) = self.rooms.get_mut(&h) {
            room.local_chart = Some((id.clone(), name.clone()));
            room.state = InternalRoomState::LocalChart { started: HashSet::new() };
            room.broadcast(
                &mut self.hub,
                ServerCommand::ChangeLocalChart { local: true, chart_id: id.clone() },
            );
            room.send(&mut self.hub, Message::SelectLocalChart { user: uid, name, id });
            room.on_state_change(&mut self.hub);
        }
        Ok(())
    }

    /// Whether a room has nobody who could be its host after the game that is on.
    fn has_no_successor(&self, h: u64) -> (res: bool)
        ensures
            res == (table::lookup(self@.rooms, h) matches Some(r) && room::no_successor(r)),
    {
        match self.rooms.get(&h) {
            Some(room) => matches!(room.state, InternalRoomState::Playing { .. })
                && room.users.len() == 0 && room.cycle && !room.is_competition,
            None => false,
        }
    }

    /// Whether a game is on in a room that a user is not done with.
    fn is_still_playing(&self, h: u64, uid: i32) -> (res: bool)
        ensures
            res == (table::lookup(self@.rooms, h) matches Some(r) && still_playing(r, uid)),
    {
        match self.rooms.get(&h) {
            Some(room) => match &room.state {
                InternalRoomState::Playing { results, aborted } => !results.contains_key(&uid)
                    && !aborted.contains(&uid),
                _ => false,
            },
            None => false,
        }
    }

    /// Whether a host cannot hand out a chart because the room would be left without a host.
    pub fn is_send_stuck(&self, uid: i32) -> (res: bool)
        ensures
            res == send_stuck(self@, uid),
    {
        match self.hosted_room(uid) {
            Ok(h) => match self.rooms.get(&h) {
                Some(room) => room.local_chart.is_some() && self.has_no_successor(h),
                None => false,
            },
            Err(_) => false,
        }
    }

    /// Whether a user cannot give up because the room would be left without a host.
    pub fn is_abort_stuck(&self, uid: i32) -> (res: bool)
        ensures
            res == abort_stuck(self@, uid),
    {
        match self.room_handle(uid) {
            Some(h) => self.is_still_playing(h, uid) && self.has_no_successor(h),
            None => false,
        }
    }

    /// Whether a result cannot be taken because the room would be left without a host.
    pub fn is_record_stuck(&self, uid: i32, h: u64, record: &Record) -> (res: bool)
        ensures
            res == record_stuck(self@, uid, h, *record),
    {
        record.player == uid && self.is_still_playing(h, uid) && self.has_no_successor(h)
    }

    /// The host hands out the shared chart.
    pub fn send_chart(&mut self, uid: i32, settings: &Settings, texts: &Texts) -> (res: Result<
        (),
        String,
    >)
        requires
            !send_stuck(old(self)@, uid),
        ensures
            (final(self)@, res.model()) == chart_sent(
                old(self)@,
                uid,
                *settings,
                texts.start_no_chart_selected@,
            ),
    {
        reveal(chart_sent);
        let h: u64 = match self.hosted_room(uid) {
            Ok(h) => h,
            Err(e) => {
                return refuse(e);
            },
        };
        let host_name: String = match self.hub.users.get(&uid) {
            Some(user) => user.name.clone(),
            None => {
                return refuse("芙宁娜的房间已经关了");
            },
        };
        let (chart_id, chart_name): (String, String) = match self.rooms.get(&h) {
            Some(room) => match &room.local_chart {
                Some((id, name)) => (id.clone(), name.clone()),
                None => {
                    return Err(texts.start_no_chart_selected.clone());
                },
            },
            None => {
                return refuse("芙宁娜的房间已经关了");
            },
        };
        if let Some(room) = self.rooms.get_mut(&h) {
            room.send(&mut self.hub, Message::SendChart { user: uid });
            let to: Vec<i32> = chart_receivers(&room.users, uid);
            let port: u16 = match settings.web_port {
                Some(p) => p,
                None => 0,
            };
            self.hub.emit(
                Effect::Send {
                    to,
                    cmd: ServerCommand::StartDownload {
                        host_id: uid,
                        host_name,
                        addr: settings.public_ip.clone(),
                        port,
                        chart_id,
                        chart_name,
                    },
                },
            );
            room.check_all_ready(&mut self.hub);
        }
        Ok(())
    }

    /// A player has got the shared chart.
    pub fn download_ready(&mut self, uid: i32, texts: &Texts) -> (res: Result<(), String>)
        ensures
            (final(self)@, res.model()) == downloaded(
                old(self)@,
                uid,
                texts.chart_not_uploaded_yet@,
            ),
    {
        reveal(downloaded);
        let h: u64 = match self.room_handle(uid) {
            Some(h) => h,
            None => {
                return refuse("芙宁娜的房间已经关了");
            },
        };
        if let Some(room) = self.rooms.get_mut(&h) {
            if !room.chart_uploaded {
                return Err(texts.chart_not_uploaded_yet.clone());
            }
            let ghost r = room@;
            if let InternalRoomState::LocalChart { started } = &mut room.state {
                let fresh: bool = started.insert(uid);
                if !fresh {
                    assert(r.phase->LocalChart_started.insert(uid) =~= r.phase->LocalChart_started);
                    return refuse("already ready");
                }
                room.send(&mut self.hub, Message::DownloadReady { user: uid });
                room.check_all_ready(&mut self.hub);
            }
        }
        Ok(())
    }
}

/// A copy of some bytes.
fn copy_bytes(data: &Vec<u8>) -> (res: Vec<u8>)
    ensures
        res@ == data@,
        res.model() == data@,
{
    let mut res: Vec<u8> = Vec::new();
    res.extend_from_slice(data.as_slice());
    assert(res@ =~= data@);
    assert(res.model() =~= data@);
    res
}

/// The shared chart of an id, or the text that there is none.
#[verifier::opaque]
pub open spec fn shared_chart(w: WorldModel, id: Seq<char>) -> Result<Seq<u8>, Seq<char>> {
    match table::lookup(w.hub.charts, id) {
        Some(data) => Ok(data),
        None => Err("chart not found: "@ + id),
    }
}

impl World {
    /// A user leaves a shared chart with the server.
    pub fn upload_chart(&mut self, uid: i32, id: String, data: Vec<u8>)
        ensures
            final(self)@ == uploaded(old(self)@, uid, id@, data@),
    {
        reveal(uploaded);
        let h: Option<u64> = self.room_handle(uid);
        let _ = self.hub.chart_cache.insert(id, data);
        if let Some(h) = h {
            if let Some(room) = self.rooms.get_mut(&h) {
                room.chart_uploaded = true;
            }
        }
    }

    /// The shared chart of an id.
    pub fn download_chart(&self, id: &String) -> (res: Result<Vec<u8>, String>)
        ensures
            res.model() == shared_chart(self@, id@),
    {
        reveal(shared_chart);
        match self.hub.chart_cache.get(id) {
            Some(data) => Ok(copy_bytes(data)),
            None => {
                let mut s: String = "chart not found: ".to_owned();
                s.append(id.as_str());
                Err(s)
            },
        }
    }

    /// The host stops sharing a chart.
    pub fn cancel_local_chart(&mut self, uid: i32) -> (res: Result<(), String>)
        ensures
            (final(self)@, res.model()) == local_canceled(old(self)@, uid),
    {
        reveal(local_canceled);
        let h: u64 = match self.hosted_room(uid) {
            Ok(h) => h,
            Err(e) => {
                return refuse(e);
            },
        };
        if let Some(room) = self.rooms.get_mut(&h) {
            if let Some((id, _)) = &room.local_chart {
                let _ = self.hub.chart_cache.remove(id);
            }
            room.chart_uploaded = false;
            if let InternalRoomState::LocalChart { started } = &mut room.state {
                started.clear();
            }
            room.broadcast(&mut self.hub, ServerCommand::LocalChartCanceled);
            room.on_state_change(&mut self.hub);
        }
        Ok(())
    }

    /// A player takes back that they have got the shared chart.
    pub fn cancel_download_ready(&mut self, uid: i32) -> (res: Result<(), String>)
        ensures
            (final(self)@, res.model()) == download_canceled(old(self)@, uid),
    {
        reveal(download_canceled);
        let h: u64 = match self.room_handle(uid) {
            Some(h) => h,
            None => {
                return refuse("芙宁娜的房间已经关了");
            },
        };
        if let Some(room) = self.rooms.get_mut(&h) {
            if let InternalRoomState::LocalChart { started } = &mut room.state {
                let _ = started.remove(&uid);
            }
        }
        Ok(())
    }

    /// The host asks for a game, or for the shared chart to be handed out.
    pub fn request_start(&mut self, uid: i32, texts: &Texts) -> (res: Result<(), String>)
        ensures
            (final(self)@, res.model()) == start_requested(
                old(self)@,
                uid,
                texts.start_no_chart_selected@,
            ),
    {
        reveal(start_requested);
        let h: u64 = match self.hosted_room(uid) {
            Ok(h) => h,
            Err(e) => {
                return refuse(e);
            },
        };
        if let Some(room) = self.rooms.get_mut(&h) {
            let ghost r = room@;
            if matches!(room.state, InternalRoomState::LocalChart { .. }) {
                match &room.local_chart {
                    Some((id, name)) => {
                        self.hub.tell(
                            uid,
                            ServerCommand::StartServing {
                                chart_id: id.clone(),
                                chart_name: name.clone(),
                            },
                        );
                        return Ok(());
                    },
                    None => {
                        return Err(texts.start_no_chart_selected.clone());
                    },
                }
            }
            if room.chart.is_none() {
                return Err(texts.start_no_chart_selected.clone());
            }
            room.reset_game_time(&mut self.hub);
            room.send(&mut self.hub, Message::GameStart { user: uid });
            let mut started: HashSet<i32> = HashSet::new();
            let _ = started.insert(uid);
            room.state = InternalRoomState::WaitForReady { started };
            room.on_state_change(&mut self.hub);
            self.hub.emit(Effect::WatchersReady { room: h });
            assert(room::scene(*room, self.hub) == asked_scene(old(self)@, r, uid, h));
            room.check_all_ready(&mut self.hub);
        }
        Ok(())
    }

    /// A user is ready.
    pub fn ready(&mut self, uid: i32) -> (res: Result<(), String>)
        ensures
            (final(self)@, res.model()) == readied(old(self)@, uid),
    {
        reveal(readied);
        let h: u64 = match self.room_handle(uid) {
            Some(h) => h,
            None => {
                return refuse("芙宁娜的房间已经关了");
            },
        };
        if let Some(room) = self.rooms.get_mut(&h) {
            let ghost r = room@;
            if let InternalRoomState::WaitForReady { started } = &mut room.state {
                let fresh: bool = started.insert(uid);
                if !fresh {
                    assert(r.phase->WaitForReady_started.insert(uid)
                        =~= r.phase->WaitForReady_started);
                    return refuse("already ready");
                }
                room.send(&mut self.hub, Message::Ready { user: uid });
                room.check_all_ready(&mut self.hub);
            }
        }
        Ok(())
    }

    /// A user is no longer ready; if it is the host, there is no game.
    pub fn cancel_ready(&mut self, uid: i32) -> (res: Result<(), String>)
        ensures
            (final(self)@, res.model()) == ready_canceled(old(self)@, uid),
    {
        reveal(ready_canceled);
        let h: u64 = match self.room_handle(uid) {
            Some(h) => h,
            None => {
                return refuse("芙宁娜的房间已经关了");
            },
        };
        if let Some(room) = self.rooms.get_mut(&h) {
            let ghost r = room@;
            if let InternalRoomState::WaitForReady { started } = &mut room.state {
                let was: bool = started.remove(&uid);
                if !was {
                    assert(r.phase->WaitForReady_started.remove(uid)
                        =~= r.phase->WaitForReady_started);
                    return refuse("not ready");
                }
                if room.check_host(uid) {
                    room.send(&mut self.hub, Message::CancelGame { user: uid });
                    room.state = InternalRoomState::SelectChart;
                    room.on_state_change(&mut self.hub);
                } else {
                    room.send(&mut self.hub, Message::CancelReady { user: uid });
                }
            }
        }
        Ok(())
    }

    /// A user gives a game up.
    pub fn abort(&mut self, uid: i32) -> (res: Result<(), String>)
        requires
            !abort_stuck(old(self)@, uid),
        ensures
            (final(self)@, res.model()) == aborted(old(self)@, uid),
    {
        reveal(aborted);
        let h: u64 = match self.room_handle(uid) {
            Some(h) => h,
            None => {
                return refuse("芙宁娜的房间已经关了");
            },
        };
        if let Some(room) = self.rooms.get_mut(&h) {
            let ghost r = room@;
            if let InternalRoomState::Playing { results, aborted } = &mut room.state {
                if results.contains_key(&uid) {
                    return refuse("already uploaded");
                }
                let fresh: bool = aborted.insert(uid);
                if !fresh {
                    assert(r.phase->Playing_aborted.insert(uid) =~= r.phase->Playing_aborted);
                    return refuse("aborted");
                }
                room.send(&mut self.hub, Message::Abort { user: uid });
                room.check_all_ready(&mut self.hub);
            }
        }
        Ok(())
    }

    /// Answers a user who has played, once the result is there or could not be fetched.
    pub fn answer_record(&mut self, uid: i32, h: u64, fetched: Result<Record, String>) -> (res:
        ServerCommand)
        requires
            fetched matches Ok(record) ==> !record_stuck(old(self)@, uid, h, record),
        ensures
            match fetched {
                Ok(record) => (final(self)@, res.model()) == {
                    let (w, r) = finished(old(self)@, uid, h, record);
                    (w, ServerCommandModel::Played(r))
                },
                Err(t) => final(self)@ == old(self)@ && res.model()
                    == ServerCommandModel::Played(Err(t@)),
            },
            world::wf(old(self)@) ==> world::wf(final(self)@),
    {
        match fetched {
            Ok(record) => ServerCommand::Played(self.record_fetched(uid, h, record)),
            Err(t) => ServerCommand::Played(Err(t)),
        }
    }

    /// The result of a user's game is there.
    pub fn record_fetched(&mut self, uid: i32, h: u64, record: Record) -> (res: Result<(), String>)
        requires
            !record_stuck(old(self)@, uid, h, record),
        ensures
            (final(self)@, res.model()) == finished(old(self)@, uid, h, record),
            world::wf(old(self)@) ==> world::wf(final(self)@),
    {
        proof {
            if world::wf(self@) {
                upkeep::law_finished(self@, uid, h, record);
            }
        }
        reveal(finished);
        if record.player != uid {
            return refuse("invalid record");
        }
        if let Some(room) = self.rooms.get_mut(&h) {
            let ghost r = room@;
            room.send(
                &mut self.hub,
                Message::Played {
                    user: uid,
                    score: record.score,
                    accuracy: record.accuracy,
                    full_combo: record.full_combo,
                },
            );
            if let InternalRoomState::Playing { results, aborted } = &mut room.state {
                if aborted.contains(&uid) {
                    return refuse("aborted");
                }
                let before: Option<Record> = results.insert(uid, record);
                if before.is_some() {
                    return refuse("already uploaded");
                }
                let all_finished: bool = match &room.state {
                    InternalRoomState::Playing { results, aborted } => room.everybody_done(
                        results,
                        aborted,
                    ),
                    _ => false,
                };
                let room_id: RoomId = room.id.clone();
                room.check_all_ready(&mut self.hub);
                if all_finished {
                    self.hub.emit(Effect::SaveReplays { room: room_id });
                }
            }
        }
        Ok(())
    }
}

/// What is to be done next for a command: an answer, if it has one, or a fetch.
#[derive(Debug, PartialEq, Eq)]
pub enum Step {
    Reply(Option<ServerCommand>),
    Fetch(Fetch),
}

/// What a [`Step`] means.
#[verifier::ext_equal]
pub enum StepModel {
    Reply(Option<ServerCommandModel>),
    Fetch(Fetch),
}

impl View for Step {
    type V = StepModel;

    open spec fn view(&self) -> StepModel {
        match *self {
            Step::Reply(r) => StepModel::Reply(r.model()),
            Step::Fetch(f) => StepModel::Fetch(f),
        }
    }
}

/// An answer.
pub open spec fn reply(cmd: ServerCommandModel) -> StepModel {
    StepModel::Reply(Some(cmd))
}

/// What a command of a user does, and what is to be done next for it; `pick` becomes the
/// host where a host leaves.
pub open spec fn processed(
    w: WorldModel,
    uid: i32,
    cmd: ClientCommandModel,
    settings: Settings,
    texts: Texts,
    pick: Option<i32>,
) -> (WorldModel, StepModel) {
    match cmd {
        ClientCommandModel::Ping => (w, reply(ServerCommandModel::Pong)),
        ClientCommandModel::Authenticate { token } => (
            w,
            reply(ServerCommandModel::Authenticate(Err("repeated authenticate"@))),
        ),
        ClientCommandModel::Chat { message } => {
            let (v, r) = said(w, uid, message);
            (v, reply(ServerCommandModel::Chat(r)))
        },
        ClientCommandModel::Touches { frames } => (
            touched(w, uid, frames),
            StepModel::Reply(None),
        ),
        ClientCommandModel::Judges { judges } => (judged(w, uid, judges), StepModel::Reply(None)),
        ClientCommandModel::CreateRoom { id } => {
            let (v, r) = room_created(w, uid, id, texts.create_id_occupied@);
            (v, reply(ServerCommandModel::CreateRoom(r)))
        },
        ClientCommandModel::JoinRoom { id, monitor } => {
            let (v, r) = room_joined(w, uid, id, monitor, settings, texts);
            (v, reply(ServerCommandModel::JoinRoom(r)))
        },
        ClientCommandModel::LeaveRoom => {
            let (v, r) = room_left(w, uid, pick);
            (v, reply(ServerCommandModel::LeaveRoom(r)))
        },
        ClientCommandModel::LockRoom { lock } => {
            let (v, r) = locked(w, uid, lock);
            (v, reply(ServerCommandModel::LockRoom(r)))
        },
        ClientCommandModel::CycleRoom { cycle } => {
            let (v, r) = cycled(w, uid, cycle);
            (v, reply(ServerCommandModel::CycleRoom(r)))
        },
        ClientCommandModel::SelectChart { id } => (
            w,
            match chart_choice(w, uid, id) {
                Ok(f) => StepModel::Fetch(f),
                Err(t) => reply(ServerCommandModel::SelectChart(Err(t))),
            },
        ),
        ClientCommandModel::RequestStart => {
            let (v, r) = start_requested(w, uid, texts.start_no_chart_selected@);
            (v, reply(ServerCommandModel::RequestStart(r)))
        },
        ClientCommandModel::Ready => {
            let (v, r) = readied(w, uid);
            (v, reply(ServerCommandModel::Ready(r)))
        },
        ClientCommandModel::CancelReady => {
            let (v, r) = ready_canceled(w, uid);
            (v, reply(ServerCommandModel::CancelReady(r)))
        },
        ClientCommandModel::Played { id } => (
            w,
            match world::room_of(w, uid) {
                Some((h, _)) => StepModel::Fetch(Fetch::Record { room: h, id }),
                None => reply(ServerCommandModel::Played(Err(no_room()))),
            },
        ),
        ClientCommandModel::Abort => {
            let (v, r) = aborted(w, uid);
            (v, reply(ServerCommandModel::Abort(r)))
        },
        ClientCommandModel::SelectLocalChart { id, name } => {
            let (v, r) = local_chosen(w, uid, id, name);
            (v, reply(ServerCommandModel::SelectLocalChart(r)))
        },
        ClientCommandModel::SelectOnlineChart { id } => {
            let (v, r) = online_choice(w, uid, id, texts.chart_select_not_now@);
            (
                v,
                match r {
                    Ok(f) => StepModel::Fetch(f),
                    Err(t) => reply(ServerCommandModel::SelectOnlineChart(Err(t))),
                },
            )
        },
        ClientCommandModel::SendChart { addr, port } => {
            let (v, r) = chart_sent(w, uid, settings, texts.start_no_chart_selected@);
            (v, reply(ServerCommandModel::SendChart(r)))
        },
        ClientCommandModel::DownloadReady => {
            let (v, r) = downloaded(w, uid, texts.chart_not_uploaded_yet@);
            (v, reply(ServerCommandModel::DownloadReady(r)))
        },
        ClientCommandModel::UploadChart { id, data } => (
            uploaded(w, uid, id, data),
            reply(ServerCommandModel::UploadChart(Ok(()))),
        ),
        ClientCommandModel::DownloadChart { id } => (
            w,
            reply(ServerCommandModel::DownloadChart(shared_chart(w, id))),
        ),
        ClientCommandModel::CancelLocalChart => {
            let (v, r) = local_canceled(w, uid);
            (v, reply(ServerCommandModel::CancelLocalChart(r)))
        },
        ClientCommandModel::CancelDownloadReady => {
            let (v, r) = download_canceled(w, uid);
            (v, reply(ServerCommandModel::CancelDownloadReady(r)))
        },
        ClientCommandModel::PlayedWithScore { .. } => (w, StepModel::Reply(None)),
    }
}

/// The commands that a user can give now: the totals have room for the notes, there is a
/// number for a new room, and no game ends that leaves a room without a host.
pub open spec fn accepts(w: WorldModel, uid: i32, cmd: ClientCommandModel) -> bool {
    world::user_of(w, uid) is Some && match cmd {
        ClientCommandModel::Judges { judges } => judges_fit(w, uid, judges),
        ClientCommandModel::CreateRoom { .. } => w.next_room < u64::MAX,
        ClientCommandModel::LeaveRoom => world::can_leave(w, uid),
        ClientCommandModel::SendChart { .. } => !send_stuck(w, uid),
        ClientCommandModel::Abort => !abort_stuck(w, uid),
        _ => true,
    }
}

impl World {
    /// Whether a user can give a command now.
    pub fn can_accept(&self, uid: i32, cmd: &ClientCommand) -> (res: bool)
        ensures
            res == accepts(self@, uid, cmd.model()),
    {
        if !self.hub.users.contains_key(&uid) {
            return false;
        }
        match cmd {
            ClientCommand::Judges { judges } => {
                assert(judges.model() =~= (**judges)@);
                self.judges_allowed(uid, &**judges)
            },
            ClientCommand::CreateRoom { .. } => self.next_room < u64::MAX,
            ClientCommand::LeaveRoom => self.leave_allowed(uid),
            ClientCommand::SendChart { .. } => !self.is_send_stuck(uid),
            ClientCommand::Abort => !self.is_abort_stuck(uid),
            _ => true,
        }
    }

    /// Does what a command of a user asks for; `pick` becomes the host where a host leaves.
    pub fn process(
        &mut self,
        uid: i32,
        cmd: ClientCommand,
        settings: &Settings,
        texts: &Texts,
        pick: Option<i32>,
    ) -> (res: Step)
        requires
            world::wf(old(self)@),
            accepts(old(self)@, uid, cmd.model()),
            room::valid_pick(pick, world::successors(old(self)@, uid)),
        ensures
            (final(self)@, res@) == processed(
                old(self)@,
                uid,
                cmd.model(),
                *settings,
                *texts,
                pick,
            ),
            world::wf(final(self)@),
    {
        proof {
            upkeep::law_processed(self@, uid, cmd.model(), *settings, *texts, pick);
        }
        match cmd {
            ClientCommand::Ping => Step::Reply(Some(ServerCommand::Pong)),
            ClientCommand::Authenticate { .. } => {
                let text: String = "repeated authenticate".to_owned();
                Step::Reply(Some(ServerCommand::Authenticate(Err(text))))
            },
            ClientCommand::Chat { message } => {
                let res = self.say(uid, message.into_inner());
                Step::Reply(Some(ServerCommand::Chat(res)))
            },
            ClientCommand::Touches { frames } => {
                self.touch(uid, frames);
                Step::Reply(None)
            },
            ClientCommand::Judges { judges } => {
                self.judge(uid, judges);
                Step::Reply(None)
            },
            ClientCommand::CreateRoom { id } => {
                let res = self.create_room(uid, id, texts);
                Step::Reply(Some(ServerCommand::CreateRoom(res)))
            },
            ClientCommand::JoinRoom { id, monitor } => {
                let res = self.join_room(uid, id, monitor, settings, texts);
                Step::Reply(Some(ServerCommand::JoinRoom(res)))
            },
            ClientCommand::LeaveRoom => {
                let res = self.leave(uid, pick);
                Step::Reply(Some(ServerCommand::LeaveRoom(res)))
            },
            ClientCommand::LockRoom { lock } => {
                let res = self.lock_room(uid, lock);
                Step::Reply(Some(ServerCommand::LockRoom(res)))
            },
            ClientCommand::CycleRoom { cycle } => {
                let res = self.cycle_room(uid, cycle);
                Step::Reply(Some(ServerCommand::CycleRoom(res)))
            },
            ClientCommand::SelectChart { id } => match self.choose_chart(uid, id) {
                Ok(f) => Step::Fetch(f),
                Err(t) => Step::Reply(Some(ServerCommand::SelectChart(Err(t)))),
            },
            ClientCommand::RequestStart => {
                let res = self.request_start(uid, texts);
                Step::Reply(Some(ServerCommand::RequestStart(res)))
            },
            ClientCommand::Ready => {
                let res = self.ready(uid);
                Step::Reply(Some(ServerCommand::Ready(res)))
            },
            ClientCommand::CancelReady => {
                let res = self.cancel_ready(uid);
                Step::Reply(Some(ServerCommand::CancelReady(res)))
            },
            ClientCommand::Played { id } => match self.room_handle(uid) {
                Some(h) => Step::Fetch(Fetch::Record { room: h, id }),
                None => Step::Reply(Some(ServerCommand::Played(refuse("芙宁娜的房间已经关了")))),
            },
            ClientCommand::Abort => {
                let res = self.abort(uid);
                Step::Reply(Some(ServerCommand::Abort(res)))
            },
            ClientCommand::SelectLocalChart { id, name } => {
                let res = self.choose_local_chart(uid, id.into_inner(), name.into_inner());
                Step::Reply(Some(ServerCommand::SelectLocalChart(res)))
            },
            ClientCommand::SelectOnlineChart { id } => match self.choose_online_chart(
                uid,
                id,
                texts,
            ) {
                Ok(f) => Step::Fetch(f),
                Err(t) => Step::Reply(Some(ServerCommand::SelectOnlineChart(Err(t)))),
            },
            ClientCommand::SendChart { .. } => {
                let res = self.send_chart(uid, settings, texts);
                Step::Reply(Some(ServerCommand::SendChart(res)))
            },
            ClientCommand::DownloadReady => {
                let res = self.download_ready(uid, texts);
                Step::Reply(Some(ServerCommand::DownloadReady(res)))
            },
            ClientCommand::UploadChart { id, data } => {
                assert(data.model() =~= data@);
                self.upload_chart(uid, id.into_inner(), data);
                Step::Reply(Some(ServerCommand::UploadChart(Ok(()))))
            },
            ClientCommand::DownloadChart { id } => {
                let id: String = id.into_inner();
                let res = self.download_chart(&id);
                Step::Reply(Some(ServerCommand::DownloadChart(res)))
            },
            ClientCommand::CancelLocalChart => {
                let res = self.cancel_local_chart(uid);
                Step::Reply(Some(ServerCommand::CancelLocalChart(res)))
            },
            ClientCommand::CancelDownloadReady => {
                let res = self.cancel_download_ready(uid);
                Step::Reply(Some(ServerCommand::CancelDownloadReady(res)))
            },
            ClientCommand::PlayedWithScore { .. } => Step::Reply(None),
        }
    }

    /// Does what a command of a user asks for; where a host leaves, one of the other players
    /// becomes the host by chance.
    pub fn handle(
        &mut self,
        uid: i32,
        cmd: ClientCommand,
        settings: &Settings,
        texts: &Texts,
    ) -> (res: Step)
        requires
            world::wf(old(self)@),
            accepts(old(self)@, uid, cmd.model()),
        ensures
            world::wf(final(self)@),
            exists|pick: Option<i32>|
                room::valid_pick(pick, world::successors(old(self)@, uid)) && (
                final(self)@,
                res@,
                ) == #[trigger] processed(
                    old(self)@,
                    uid,
                    cmd.model(),
                    *settings,
                    *texts,
                    pick,
                ),
    {
        let pick: Option<i32> = self.choose_successor(uid);
        self.process(uid, cmd, settings, texts, pick)
    }
}

/// The user who watches every room.
pub const WATCHER_ID: i32 = 2;

/// The users with one who watches among them.
pub open spec fn with_watcher(users: Seq<(i32, UserModel)>, id: i32, name: Seq<char>) -> Seq<
    (i32, UserModel),
> {
    if table::holds(users, id) {
        users
    } else {
        table::put(
            users,
            id,
            UserModel { monitor: true, ..hub::new_user(id, name, Seq::empty()) },
        )
    }
}

/// Someone comes into a room to watch it.
pub open spec fn watcher_in(s: Scene, u: UserModel) -> Scene {
    room::announced(
        room::broadcast_to(
            Scene { room: room::added(s.room, u.id, true).0, ..s },
            ServerCommandModel::OnJoinRoom(hub::info(u)),
        ),
        MessageModel::JoinRoom { user: u.id, name: u.name },
    )
}

/// The watcher comes into a room that is not live, and it is live from then on; who made the
/// room learns what it is doing.
pub open spec fn watcher_joined(w: WorldModel, h: u64, creator: i32) -> WorldModel {
    let v = WorldModel {
        hub: HubModel { users: with_watcher(w.hub.users, WATCHER_ID, "Monitor"@), ..w.hub },
        ..w
    };
    match (table::lookup(v.rooms, h), world::user_of(v, WATCHER_ID)) {
        (Some(r), Some(u)) => if r.live || r.competition {
            v
        } else {
            let m = UserModel { monitor: true, ..u };
            let t = world::with_scene(
                v,
                h,
                watcher_in(
                    Scene {
                        room: RoomModel { live: true, ..r },
                        hub: hub::user_set(v.hub, WATCHER_ID, m),
                    },
                    m,
                ),
            );
            match world::room_of(t, creator) {
                Some((_, c)) => WorldModel {
                    hub: hub::told(
                        t.hub,
                        creator,
                        ServerCommandModel::ChangeState(room::room_shown(c)),
                    ),
                    ..t
                },
                None => t,
            }
        },
        _ => v,
    }
}

/// The recorder comes into a room.
pub open spec fn recorder_joined(w: WorldModel, h: u64) -> WorldModel {
    let v = WorldModel {
        hub: HubModel {
            users: with_watcher(w.hub.users, RECORDER_BOT_USER_ID, replay::recorder_name()),
            ..w.hub
        },
        ..w
    };
    match (table::lookup(v.rooms, h), world::user_of(v, RECORDER_BOT_USER_ID)) {
        (Some(r), Some(u)) => world::with_scene(v, h, watcher_in(world::scene_in(v, r), u)),
        _ => v,
    }
}

/// Those who watch every room come into a new one.
pub open spec fn watchers_joined(w: WorldModel, h: u64, creator: i32) -> WorldModel {
    world::emitted(recorder_joined(watcher_joined(w, h, creator), h), EffectModel::RoomsChanged)
}

/// Someone who watches a room is ready for its game.
pub open spec fn watcher_readied(w: WorldModel, h: u64, id: i32) -> WorldModel {
    match table::lookup(w.rooms, h) {
        Some(r) => match r.phase {
            Phase::WaitForReady { started } => if r.monitors.contains(id) && !started.contains(
                id,
            ) {
                let s = room::announced(world::scene_in(w, r), MessageModel::Ready { user: id });
                world::with_scene(
                    w,
                    h,
                    room::checked(
                        Scene {
                            room: RoomModel {
                                phase: Phase::WaitForReady { started: started.insert(id) },
                                ..s.room
                            },
                            ..s
                        },
                    ),
                )
            } else {
                w
            },
            _ => w,
        },
        None => w,
    }
}

impl World {
    /// Makes sure that someone who watches is among the users.
    fn ensure_watcher(&mut self, id: i32, name: &str)
        ensures
            final(self)@ == (WorldModel {
                hub: HubModel {
                    users: with_watcher(old(self)@.hub.users, id, name@),
                    ..old(self)@.hub
                },
                ..old(self)@
            }),
    {
        if !self.hub.users.contains_key(&id) {
            let lang: String = String::new();
            assert(lang@ =~= Seq::empty());
            let mut user: User = User::new(id, name.to_owned(), lang);
            user.monitor = true;
            let _ = self.hub.users.insert(id, user);
        }
    }

    /// The watcher comes into a room that is not live.
    fn watcher_joins(&mut self, h: u64, creator: i32)
        requires
            world::wf(old(self)@),
        ensures
            final(self)@ == watcher_joined(old(self)@, h, creator),
    {
        self.ensure_watcher(WATCHER_ID, "Monitor");
        let ghost v = self@;
        proof {
            upkeep::lemma_with_watcher(old(self)@.hub.users, WATCHER_ID, "Monitor"@);
            world::lemma_user_id(v.hub.users, WATCHER_ID);
        }
        let ghost u = world::user_of(v, WATCHER_ID)->Some_0;
        if let Some(room) = self.rooms.get_mut(&h) {
            if !room.is_live() && !room.is_competition {
                if let Some(user) = self.hub.users.get_mut(&WATCHER_ID) {
                    user.monitor = true;
                }
                proof {
                    table::lemma_put_lookup(
                        v.hub.users,
                        WATCHER_ID,
                        UserModel { monitor: true, ..u },
                        WATCHER_ID,
                    );
                }
                let _ = room.add_user(WATCHER_ID, true);
                room.live = true;
                if let Some(user) = self.hub.users.get(&WATCHER_ID) {
                    let info = user.to_info();
                    let name: String = user.name.clone();
                    room.broadcast(&mut self.hub, ServerCommand::OnJoinRoom(info));
                    room.send(&mut self.hub, Message::JoinRoom { user: WATCHER_ID, name });
                }
            } else {
                return;
            }
        } else {
            return;
        }
        if let Some(c) = self.room_handle(creator) {
            if let Some(room) = self.rooms.get(&c) {
                let state = room.client_room_state();
                self.hub.tell(creator, ServerCommand::ChangeState(state));
            }
        }
    }

    /// The recorder comes into a room.
    fn recorder_joins(&mut self, h: u64)
        requires
            world::wf(old(self)@),
        ensures
            final(self)@ == recorder_joined(old(self)@, h),
    {
        let name: String = replay::recorder_bot_user_name();
        self.ensure_watcher(RECORDER_BOT_USER_ID, name.as_str());
        let ghost v = self@;
        proof {
            upkeep::lemma_with_watcher(old(self)@.hub.users, RECORDER_BOT_USER_ID, name@);
            world::lemma_user_id(v.hub.users, RECORDER_BOT_USER_ID);
        }
        if let Some(room) = self.rooms.get_mut(&h) {
            if let Some(user) = self.hub.users.get(&RECORDER_BOT_USER_ID) {
                let _ = room.add_user(RECORDER_BOT_USER_ID, true);
                let info = user.to_info();
                let name: String = user.name.clone();
                room.broadcast(&mut self.hub, ServerCommand::OnJoinRoom(info));
                room.send(&mut self.hub, Message::JoinRoom { user: RECORDER_BOT_USER_ID, name });
            }
        }
    }

    /// Those who watch every room come into a new one.
    pub fn watchers_join(&mut self, h: u64, creator: i32)
        requires
            world::wf(old(self)@),
        ensures
            final(self)@ == watchers_joined(old(self)@, h, creator),
            world::wf(final(self)@),
    {
        proof {
            upkeep::law_watchers_joined(self@, h, creator);
        }
        self.watcher_joins(h, creator);
        self.recorder_joins(h);
        self.hub.emit(Effect::RoomsChanged);
    }

    /// Someone who watches a room is ready for its game.
    fn watcher_ready(&mut self, h: u64, id: i32)
        ensures
            final(self)@ == watcher_readied(old(self)@, h, id),
    {
        if let Some(room) = self.rooms.get_mut(&h) {
            if text::contains_id(&room.monitors, id) {
                let due: bool = match &room.state {
                    InternalRoomState::WaitForReady { started } => !started.contains(&id),
                    _ => false,
                };
                if due {
                    room.send(&mut self.hub, Message::Ready { user: id });
                    if let InternalRoomState::WaitForReady { started } = &mut room.state {
                        let _ = started.insert(id);
                    }
                    room.check_all_ready(&mut self.hub);
                }
            }
        }
    }

    /// Those who watch every room are ready for its game.
    pub fn watchers_ready(&mut self, h: u64)
        requires
            world::wf(old(self)@),
        ensures
            final(self)@ == watcher_readied(
                watcher_readied(old(self)@, h, WATCHER_ID),
                h,
                RECORDER_BOT_USER_ID,
            ),
            world::wf(final(self)@),
    {
        proof {
            upkeep::law_watcher_readied(self@, h, WATCHER_ID);
            upkeep::law_watcher_readied(
                watcher_readied(self@, h, WATCHER_ID),
                h,
                RECORDER_BOT_USER_ID,
            );
        }
        self.watcher_ready(h, WATCHER_ID);
        self.watcher_ready(h, RECORDER_BOT_USER_ID);
    }
}

/// The players who are told to fetch the shared chart.
fn chart_receivers(users: &Vec<i32>, host: i32) -> (res: Vec<i32>)
    ensures
        res@ == receivers(users@, host),
{
    let mut res: Vec<i32> = Vec::new();
    let mut i: usize = 0;
    assert(users@.take(0) =~= Seq::empty());
    while i < users.len()
        invariant
            i <= users.len(),
            res@ == receivers(users@.take(i as int), host),
        decreases users.len() - i,
    {
        assert(users@.take(i + 1).drop_last() =~= users@.take(i as int));
        let id: i32 = users[i];
        if id != host && id != RECORDER_BOT_USER_ID {
            res.push(id);
        }
        i += 1;
    }
    assert(users@.take(i as int) =~= users@);
    res
}

/// The recorder and the watcher come into a new room to watch it: the recorder always, the
/// watcher where the room was not live, which it is from then on. They are among its watchers,
/// and its players stay as they are.
pub proof fn law_watchers_come(w: WorldModel, h: u64, creator: i32, r: RoomModel)
    requires
        table::lookup(w.rooms, h) == Some(r),
        world::ids_ok(w.hub.users),
    ensures
        ({
            let v = watchers_joined(w, h, creator);
            &&& table::lookup(v.rooms, h) matches Some(q) && {
                &&& q.users == r.users
                &&& q.host == r.host
                &&& q.phase == r.phase
                &&& q.monitors == (if r.live || r.competition {
                    r.monitors.push(-999i32)
                } else {
                    r.monitors.push(2i32).push(-999i32)
                })
                &&& q.live == (r.live || !r.competition)
            }
            &&& v.hub.out.last() == EffectModel::RoomsChanged
        }),
{
    let a = watcher_joined(w, h, creator);
    let u0 = with_watcher(w.hub.users, WATCHER_ID, "Monitor"@);
    let w0 = UserModel { monitor: true, ..hub::new_user(WATCHER_ID, "Monitor"@, Seq::empty()) };
    table::lemma_put_lookup(w.hub.users, WATCHER_ID, w0, WATCHER_ID);
    world::lemma_user_id(w.hub.users, WATCHER_ID);
    world::lemma_user_id(w.hub.users, RECORDER_BOT_USER_ID);
    table::lemma_put_lookup(w.hub.users, WATCHER_ID, w0, RECORDER_BOT_USER_ID);
    let x = table::lookup(u0, WATCHER_ID)->Some_0;
    assert(x.id == WATCHER_ID);
    let m = UserModel { monitor: true, ..x };
    table::lemma_put_lookup(u0, WATCHER_ID, m, RECORDER_BOT_USER_ID);
    let q1 = RoomModel { live: true, monitors: r.monitors.push(WATCHER_ID), ..r };
    table::lemma_put_lookup(w.rooms, h, q1, h);
    let r1 = if r.live || r.competition {
        r
    } else {
        q1
    };
    assert(table::lookup(a.rooms, h) == Some(r1));
    assert(table::lookup(a.hub.users, RECORDER_BOT_USER_ID) == table::lookup(
        w.hub.users,
        RECORDER_BOT_USER_ID,
    ));
    let name = replay::recorder_name();
    let b0 = UserModel { monitor: true, ..hub::new_user(RECORDER_BOT_USER_ID, name, Seq::empty()) };
    table::lemma_put_lookup(a.hub.users, RECORDER_BOT_USER_ID, b0, RECORDER_BOT_USER_ID);
    let q2 = RoomModel { monitors: r1.monitors.push(RECORDER_BOT_USER_ID), ..r1 };
    table::lemma_put_lookup(a.rooms, h, q2, h);
}

/// Those who watch a room are ready for its game as soon as it is asked for, and the game still
/// waits for the players who are not.
pub proof fn law_watcher_ready(
    w: WorldModel,
    h: u64,
    r: RoomModel,
    started: Set<i32>,
    id: i32,
    other: i32,
)
    requires
        table::lookup(w.rooms, h) == Some(r),
        r.phase == (Phase::WaitForReady { started }),
        other != id,
        r.users.contains(other) || r.monitors.contains(other),
        !started.contains(other),
    ensures
        ({
            let v = watcher_readied(w, h, id);
            if r.monitors.contains(id) && !started.contains(id) {
                table::lookup(v.rooms, h) == Some(
                    RoomModel {
                        phase: Phase::WaitForReady { started: started.insert(id) },
                        ..r
                    },
                )
            } else {
                v == w
            }
        }),
{
    if r.monitors.contains(id) && !started.contains(id) {
        let s = room::announced(world::scene_in(w, r), MessageModel::Ready { user: id });
        let more = started.insert(id);
        let q = RoomModel { phase: Phase::WaitForReady { started: more }, ..r };
        let a = Scene {
            room: RoomModel { phase: Phase::WaitForReady { started: more }, ..s.room },
            ..s
        };
        laws::law_waits_for_everybody(a, more, other);
        table::lemma_put_lookup(w.rooms, h, q, h);
    }
}

/// When a watcher comes into a room, everybody in it, the watcher among them, learns who it is,
/// and it is logged.
pub proof fn law_watcher_announced(s: Scene, u: UserModel)
    ensures
        ({
            let t = watcher_in(s, u);
            let n = s.hub.out.len() as int;
            let all = s.room.users + s.room.monitors.push(u.id);
            &&& t.room == (RoomModel { monitors: s.room.monitors.push(u.id), ..s.room })
            &&& t.hub.users == s.hub.users
            &&& t.hub.out.len() == n + 3
            &&& t.hub.out.take(n) == s.hub.out
            &&& laws::sent(
                t.hub.out,
                n,
                all,
                ServerCommandModel::OnJoinRoom(
                    crate::command::UserInfoModel { id: u.id, name: u.name, monitor: u.monitor },
                ),
            )
            &&& t.hub.out[n + 1] matches EffectModel::Log { room, .. } && room == s.room.id
            &&& laws::sent(
                t.hub.out,
                n + 2,
                all,
                ServerCommandModel::Message(MessageModel::JoinRoom { user: u.id, name: u.name }),
            )
        }),
{
    assert(watcher_in(s, u).hub.out.take(s.hub.out.len() as int) =~= s.hub.out);
}

/// Whoever made a room, and is in it at choosing a chart, is told so again once a watcher has made
/// it live.
pub proof fn law_maker_told(w: WorldModel, h: u64, creator: i32, c: UserModel, r: RoomModel)
    requires
        table::lookup(w.rooms, h) == Some(r),
        table::lookup(w.hub.users, creator) == Some(c),
        c.room == Some(h),
        creator != 2,
        r.phase is SelectChart,
        !r.live,
        !r.competition,
    ensures
        laws::sent(
            watcher_joined(w, h, creator).hub.out,
            watcher_joined(w, h, creator).hub.out.len() - 1,
            seq![creator],
            ServerCommandModel::ChangeState(
                crate::command::RoomState::SelectChart(
                    match r.chart {
                        Some(k) => Some(k.id),
                        None => None,
                    },
                ),
            ),
        ),
{
    let w0 = UserModel { monitor: true, ..hub::new_user(WATCHER_ID, "Monitor"@, Seq::empty()) };
    table::lemma_put_lookup(w.hub.users, WATCHER_ID, w0, WATCHER_ID);
    table::lemma_put_lookup(w.hub.users, WATCHER_ID, w0, creator);
    let u0 = with_watcher(w.hub.users, WATCHER_ID, "Monitor"@);
    let x = table::lookup(u0, WATCHER_ID)->Some_0;
    let m = UserModel { monitor: true, ..x };
    table::lemma_put_lookup(u0, WATCHER_ID, m, creator);
    let q = RoomModel { live: true, monitors: r.monitors.push(m.id), ..r };
    table::lemma_put_lookup(w.rooms, h, q, h);
}

} // verus!
