//! What the rules come to: when games begin and end, whose turn it is to be the host, who is
//! in a room, how notes are counted, and what reaches the other side of a connection.
use crate::bin::{BinError, BinaryData};
use crate::client;
use crate::client::{AnswerModel, Call, ClientModel};
use crate::command::{
    ClientCommandModel, JudgeEvent, MessageModel, RoomState, ServerCommandModel, TouchFrameModel,
};
use crate::frame;
use crate::hub;
use crate::hub::{ChartModel, EffectModel, LogModel, Record, UserModel};
use crate::order;
use crate::replay;
use crate::room;
use crate::room::{Phase, RoomModel, Scene};
use crate::session;
use crate::session::{Fetch, Settings, StepModel, Texts};
use crate::stats;
use crate::table;
use crate::text;
use crate::upkeep;
use crate::world;
use crate::world::WorldModel;
use vstd::prelude::*;

verus! {

/// A game begins only when everybody is ready, or when everybody who needs the shared chart
/// has got it.
pub proof fn law_game_begins(s: Scene)
    requires
        !(s.room.phase is Playing),
    ensures
        room::checked(s).room.phase is Playing <==> {
            ||| (s.room.phase matches Phase::WaitForReady { started } && room::all_ready(
                s.room,
                started,
            ))
            ||| (s.room.phase matches Phase::LocalChart { started } && room::all_have_chart(
                s,
                started,
            ))
        },
        room::checked(s).room.phase is Playing ==> room::checked(s).room.phase
            == room::fresh_game() && room::checked(s).room.stats.len() == 0,
{
}

/// A game ends only when every player is done with it.
pub proof fn law_game_ends(s: Scene)
    requires
        s.room.phase is Playing,
    ensures
        !(room::checked(s).room.phase is Playing) <==> (s.room.phase matches Phase::Playing {
            results,
            aborted,
        } && room::all_done(s.room, results, aborted)),
{
}

/// A list in which nobody stands twice.
pub open spec fn each_once(ids: Seq<i32>) -> bool {
    forall|i: int, j: int| 0 <= i < j < ids.len() ==> #[trigger] ids[i] != #[trigger] ids[j]
}

/// The host after so many games of a room that takes turns.
pub open spec fn host_after(users: Seq<i32>, host: i32, games: nat) -> i32
    decreases games,
{
    if games == 0 {
        host
    } else {
        room::next_host(users, Some(host_after(users, host, (games - 1) as nat)))
    }
}

/// A player stands at their own place.
proof fn lemma_place_at(ids: Seq<i32>, i: int)
    requires
        each_once(ids),
        0 <= i < ids.len(),
    ensures
        room::place_of(ids, ids[i]) == i,
    decreases ids.len(),
{
    if i > 0 {
        assert(ids[0] != ids[i]);
        let rest = ids.skip(1);
        assert(rest[i - 1] == ids[i]);
        assert forall|a: int, b: int| 0 <= a < b < rest.len() implies #[trigger] rest[a]
            != #[trigger] rest[b] by {
            assert(ids[a + 1] != ids[b + 1]);
        }
        lemma_place_at(rest, i - 1);
    }
}

/// Every player is the host in turn: after so many games it is the turn of the player so many
/// places on, and round again.
pub proof fn law_turns(users: Seq<i32>, i: int, games: nat)
    requires
        each_once(users),
        0 <= i < users.len(),
    ensures
        host_after(users, users[i], games) == users[(i + games) % (users.len() as int)],
    decreases games,
{
    let n = users.len() as int;
    if games == 0 {
        assert((i + 0) % n == i) by (nonlinear_arith)
            requires
                0 <= i < n,
        ;
    } else {
        let k = (games - 1) as nat;
        law_turns(users, i, k);
        let at = (i + k) % n;
        assert(0 <= at < n) by (nonlinear_arith)
            requires
                at == (i + k) % n,
                n > 0,
        ;
        lemma_place_at(users, at);
        vstd::arithmetic::div_mod::lemma_add_mod_noop_right(1, i + k, n);
        assert((at + 1) % n == (i + games) % n);
    }
}

/// After as many games as there are players the first host is the host again.
pub proof fn law_full_turn(users: Seq<i32>, i: int)
    requires
        each_once(users),
        0 <= i < users.len(),
    ensures
        host_after(users, users[i], users.len()) == users[i],
{
    let n = users.len() as int;
    law_turns(users, i, users.len());
    vstd::arithmetic::div_mod::lemma_mod_add_multiples_vanish(i, n);
    vstd::arithmetic::div_mod::lemma_small_mod(i as nat, n as nat);
}

/// Whoever has left a room is in none, and not among its people.
pub proof fn law_left_is_gone(s: Scene, u: UserModel, pick: Option<i32>)
    requires
        table::lookup(s.hub.users, u.id) == Some(u),
        world::ids_ok(s.hub.users),
        room::can_leave(s.room, u),
        room::valid_pick(pick, room::successors(s.room, u)),
    ensures
        u.monitor ==> !room::left(s, u, pick).0.room.monitors.contains(u.id),
        !u.monitor ==> !room::left(s, u, pick).0.room.users.contains(u.id),
        table::lookup(room::left(s, u, pick).0.hub.users, u.id) matches Some(v) && v.room is None,
{
    upkeep::lemma_dropped(s.room.users, u.id);
    upkeep::lemma_dropped(s.room.monitors, u.id);
    let g = room::gone(s, u);
    let v = UserModel { room: None, ..u };
    table::lemma_put_lookup(s.hub.users, u.id, v, u.id);
    lemma_times_keep_room(g.hub.users, g.room.users, u.id);
}

/// Setting back the times of games moves nobody.
proof fn lemma_times_keep_room(users: Seq<(i32, UserModel)>, ids: Seq<i32>, id: i32)
    ensures
        match table::lookup(users, id) {
            Some(u) => table::lookup(hub::times_reset(users, ids), id) matches Some(v) && v.room
                == u.room,
            None => table::lookup(hub::times_reset(users, ids), id) is None,
        },
    decreases ids.len(),
{
    if ids.len() > 0 {
        lemma_times_keep_room(users, ids.drop_last(), id);
        let mid = hub::times_reset(users, ids.drop_last());
        if let Some(u) = table::lookup(mid, ids.last()) {
            table::lemma_put_lookup(
                mid,
                ids.last(),
                UserModel { game_time: hub::NO_GAME_TIME, ..u },
                id,
            );
        }
    }
}

/// Nobody comes into a room that is locked, that plays, or that is not there.
pub proof fn law_closed_room(
    w: WorldModel,
    uid: i32,
    id: Seq<char>,
    monitor: bool,
    settings: Settings,
    texts: Texts,
)
    requires
        match world::find_listed(w.rooms, id) {
            Some((_, r)) => r.locked || !(r.phase is SelectChart),
            None => true,
        },
    ensures
        session::room_joined(w, uid, id, monitor, settings, texts).0 == w,
        session::room_joined(w, uid, id, monitor, settings, texts).1 is Err,
{
    reveal(session::room_joined);
}

/// Someone who comes into a room as a player and leaves it again leaves the same players.
pub proof fn law_in_and_out(r: RoomModel, uid: i32)
    requires
        !r.users.contains(uid),
        r.users.len() < room::ROOM_MAX_USERS,
    ensures
        room::dropped(room::added(r, uid, false).0.users, uid) == r.users,
{
    let all = r.users.push(uid);
    assert(all.drop_last() =~= r.users);
    lemma_nobody_dropped(r.users, uid);
}

/// A list without someone who is not in it is the list.
proof fn lemma_nobody_dropped(ids: Seq<i32>, id: i32)
    requires
        !ids.contains(id),
    ensures
        room::dropped(ids, id) == ids,
    decreases ids.len(),
{
    if ids.len() > 0 {
        assert(ids[ids.len() - 1] != id);
        assert forall|i: int| 0 <= i < ids.drop_last().len() implies ids.drop_last()[i] != id by {
            assert(ids[i] != id);
        }
        lemma_nobody_dropped(ids.drop_last(), id);
        assert(ids.drop_last().push(ids.last()) =~= ids);
    } else {
        assert(room::dropped(ids, id) =~= ids);
    }
}

/// A chart that was left with the server can be fetched from it as it was.
pub proof fn law_chart_shared(w: WorldModel, uid: i32, id: Seq<char>, data: Seq<u8>)
    ensures
        session::shared_chart(session::uploaded(w, uid, id, data), id) == Ok::<
            Seq<u8>,
            Seq<char>,
        >(data),
{
    reveal(session::shared_chart);
    reveal(session::uploaded);
    table::lemma_put_lookup(w.hub.charts, id, data, id);
}

/// What is encoded, framed and sent on one side is received and decoded on the other.
pub proof fn law_delivery<T: BinaryData>(m: T::Model)
    requires
        T::encodable(m),
        T::bytes(m).len() <= frame::MAX_PACKET,
    ensures
        ({
            let got = frame::feed(frame::at_start(), frame::frame(T::bytes(m)));
            &&& got.error is None
            &&& got.state == frame::at_start()
            &&& got.packets.len() == 1
            &&& T::parse(got.packets[0]) == Ok::<(T::Model, int), BinError>(
                (m, T::bytes(m).len() as int),
            )
        }),
{
    frame::law_frame_round_trip(T::bytes(m));
    frame::law_packet_round_trip::<T>(m);
}

/// A request of a client is under way until it is answered, and not after.
pub proof fn law_request_answered(c: ClientModel, call: Call, a: AnswerModel)
    ensures
        client::requested(c, call).pending.contains(call),
        !client::answered(client::requested(c, call), call, a).0.pending.contains(call),
        forall|other: Call|
            other != call ==> (#[trigger] c.pending.contains(other) == client::answered(
                client::requested(c, call),
                call,
                a,
            ).0.pending.contains(other)),
{
}

/// What is seen of watched players is forgotten whenever the room does something else.
pub proof fn law_seen_forgotten(c: ClientModel, state: crate::command::RoomState)
    ensures
        client::processed(c, ServerCommandModel::ChangeState(state)).0.live_players.dom()
            == Set::<i32>::empty(),
{
}

/// A player hits notes, each counted for itself.
pub open spec fn hit_one_by_one(
    s: Scene,
    uid: i32,
    name: Seq<char>,
    events: Seq<JudgeEvent>,
) -> Scene
    decreases events.len(),
{
    if events.len() == 0 {
        s
    } else {
        room::notes_hit(
            hit_one_by_one(s, uid, name, events.drop_last()),
            uid,
            name,
            seq![events.last()],
        )
    }
}

/// Notes that are counted together leave the room as notes that are counted one by one do,
/// and the totals are published once; no notes change nothing.
pub proof fn law_batch(s: Scene, uid: i32, name: Seq<char>, events: Seq<JudgeEvent>)
    ensures
        room::notes_hit(s, uid, name, events).room == hit_one_by_one(s, uid, name, events).room,
        events.len() == 0 ==> room::notes_hit(s, uid, name, events) == s,
        events.len() > 0 ==> room::notes_hit(s, uid, name, events).hub == hub::emitted(
            s.hub,
            EffectModel::Stats {
                room: s.room.id,
                stats: room::all_stats(hit_one_by_one(s, uid, name, events).room),
            },
        ),
    decreases events.len(),
{
    if events.len() > 0 {
        let front = events.drop_last();
        let last = events.last();
        let one = seq![last];
        let mid = hit_one_by_one(s, uid, name, front);
        law_batch(s, uid, name, front);
        let first = room::player_stats(s.room, uid, name);
        let after = stats::with_judgements(first, front);
        assert(one.drop_last() =~= Seq::empty());
        assert(stats::with_judgements(after, one) == stats::with_judgement(
            stats::with_judgements(after, one.drop_last()),
            last.judgement,
        ));
        let a = room::notes_hit(s, uid, name, events).room;
        let b = room::notes_hit(mid, uid, name, one).room;
        if front.len() > 0 {
            table::lemma_put_lookup(s.room.stats, uid, after, uid);
            table::lemma_find(s.room.stats, uid);
            table::lemma_find_is(
                table::put(s.room.stats, uid, after),
                uid,
                table::find(s.room.stats, uid),
            );
        }
        assert(a.stats =~= b.stats);
        assert(a.events =~= b.events);
    }
}

/// Whether a command for some users stands at a place among the effects.
pub open spec fn sent(out: Seq<EffectModel>, n: int, to: Seq<i32>, cmd: ServerCommandModel) -> bool {
    0 <= n < out.len() && out[n] == (EffectModel::Send { to, cmd })
}

/// While one of the players has neither a result nor given up, the game goes on, and nothing
/// changes.
pub proof fn law_game_goes_on(s: Scene, results: Map<i32, Record>, aborted: Set<i32>, i: int)
    requires
        s.room.phase == (Phase::Playing { results, aborted }),
        0 <= i < s.room.users.len(),
        !results.dom().contains(s.room.users[i]),
        !aborted.contains(s.room.users[i]),
    ensures
        room::checked(s) == s,
{
}

/// Once every player has a result or has given up, the game is over: the room is back at choosing
/// a chart, with the same people, and everybody in it learns so. The host stays the host where
/// the players do not take turns.
pub proof fn law_game_over(s: Scene, results: Map<i32, Record>, aborted: Set<i32>)
    requires
        s.room.phase == (Phase::Playing { results, aborted }),
        forall|i: int|
            0 <= i < s.room.users.len() ==> results.dom().contains(#[trigger] s.room.users[i])
                || aborted.contains(s.room.users[i]),
    ensures
        ({
            let t = room::checked(s);
            let all = s.room.users + s.room.monitors;
            let n = s.hub.out.len() as int;
            &&& t.room == (RoomModel { phase: Phase::SelectChart, host: t.room.host, ..s.room })
            &&& !s.room.cycle || s.room.competition ==> t.room.host == s.room.host
            &&& t.hub.users == s.hub.users
            &&& t.hub.charts == s.hub.charts
            &&& t.hub.out.take(n) == s.hub.out
            &&& sent(t.hub.out, n + 1, all, ServerCommandModel::Message(MessageModel::GameEnd))
            &&& sent(
                t.hub.out,
                t.hub.out.len() - 1,
                all,
                ServerCommandModel::ChangeState(
                    RoomState::SelectChart(
                        match s.room.chart {
                            Some(c) => Some(c.id),
                            None => None,
                        },
                    ),
                ),
            )
        }),
{
    let t = room::checked(s);
    assert(t.hub.out.take(s.hub.out.len() as int) =~= s.hub.out);
}

/// When a game is over in a room that takes turns, the player after the host is the host, the one
/// after the last being the first; both of them are told, and everybody learns who it is.
pub proof fn law_turn_passes(s: Scene, results: Map<i32, Record>, aborted: Set<i32>, i: int)
    requires
        s.room.phase == (Phase::Playing { results, aborted }),
        forall|i: int|
            0 <= i < s.room.users.len() ==> results.dom().contains(#[trigger] s.room.users[i])
                || aborted.contains(s.room.users[i]),
        s.room.cycle,
        !s.room.competition,
        each_once(s.room.users),
        0 <= i < s.room.users.len(),
        s.room.host == Some(s.room.users[i]),
    ensures
        ({
            let t = room::checked(s);
            let all = s.room.users + s.room.monitors;
            let n = s.hub.out.len() as int;
            let next = if i + 1 == s.room.users.len() {
                s.room.users[0]
            } else {
                s.room.users[i + 1]
            };
            &&& t.room.host == Some(next)
            &&& t.hub.out.len() == n + 7
            &&& sent(
                t.hub.out,
                n + 3,
                all,
                ServerCommandModel::Message(MessageModel::NewHost { user: next }),
            )
            &&& sent(
                t.hub.out,
                n + 4,
                seq![s.room.users[i]],
                ServerCommandModel::ChangeHost(false),
            )
            &&& sent(t.hub.out, n + 5, seq![next], ServerCommandModel::ChangeHost(true))
        }),
{
    lemma_place_at(s.room.users, i);
    let n = s.room.users.len() as int;
    if i + 1 == n {
        assert((i + 1) % n == 0) by (nonlinear_arith)
            requires
                i + 1 == n,
                n > 0,
        ;
    } else {
        assert((i + 1) % n == i + 1) by (nonlinear_arith)
            requires
                0 <= i,
                i + 1 < n,
        ;
    }
}

/// While somebody in the room, a player or a watcher, is not ready, no game begins, and nothing
/// changes.
pub proof fn law_waits_for_everybody(s: Scene, started: Set<i32>, uid: i32)
    requires
        s.room.phase == (Phase::WaitForReady { started }),
        s.room.users.contains(uid) || s.room.monitors.contains(uid),
        !started.contains(uid),
    ensures
        room::checked(s) == s,
{
    let all = s.room.users + s.room.monitors;
    if s.room.users.contains(uid) {
        let i = choose|i: int| 0 <= i < s.room.users.len() && s.room.users[i] == uid;
        assert(room::members(s.room)[i] == uid);
    } else {
        let i = choose|i: int| 0 <= i < s.room.monitors.len() && s.room.monitors[i] == uid;
        assert(all[s.room.users.len() + i] == uid);
        assert(room::members(s.room)[s.room.users.len() + i] == uid);
    }
}

/// A game that has just begun: nobody has a result, nobody has given up, no note has been
/// counted, and nothing else of the room has changed.
pub open spec fn just_begun(r: RoomModel, q: RoomModel) -> bool {
    q == RoomModel {
        phase: Phase::Playing { results: Map::empty(), aborted: Set::empty() },
        stats: Seq::empty(),
        events: Seq::empty(),
        ..r
    }
}

/// Once everybody in the room is ready, the game begins, and everybody learns so.
pub proof fn law_begins_when_all_ready(s: Scene, started: Set<i32>)
    requires
        s.room.phase == (Phase::WaitForReady { started }),
        forall|uid: i32|
            #![trigger started.contains(uid)]
            s.room.users.contains(uid) || s.room.monitors.contains(uid) ==> started.contains(uid),
    ensures
        ({
            let t = room::checked(s);
            let all = s.room.users + s.room.monitors;
            let n = s.hub.out.len() as int;
            &&& just_begun(s.room, t.room)
            &&& t.hub.charts == s.hub.charts
            &&& t.hub.users == hub::times_reset(s.hub.users, s.room.users)
            &&& t.hub.out.len() == n + 4
            &&& t.hub.out.take(n) == s.hub.out
            &&& sent(t.hub.out, n + 2, all, ServerCommandModel::Message(MessageModel::StartPlaying))
            &&& sent(t.hub.out, n + 3, all, ServerCommandModel::ChangeState(RoomState::Playing))
        }),
{
    let all = room::members(s.room);
    assert forall|i: int| 0 <= i < all.len() implies started.contains(#[trigger] all[i]) by {
        if i < s.room.users.len() {
            assert(s.room.users[i] == all[i]);
            assert(s.room.users.contains(all[i]));
        } else {
            assert(s.room.monitors[i - s.room.users.len()] == all[i]);
            assert(s.room.monitors.contains(all[i]));
        }
    }
    assert(room::checked(s).hub.out.take(s.hub.out.len() as int) =~= s.hub.out);
}

/// When a game begins, the clock of each of its players is set back, and nothing else about
/// anybody changes.
pub proof fn law_clocks_set_back(users: Seq<(i32, UserModel)>, ids: Seq<i32>, id: i32)
    ensures
        table::lookup(hub::times_reset(users, ids), id) == (match table::lookup(users, id) {
            Some(u) => if ids.contains(id) {
                Some(UserModel { game_time: 0xff80_0000, ..u })
            } else {
                Some(u)
            },
            None => None,
        }),
    decreases ids.len(),
{
    if ids.len() == 0 {
        assert(!ids.contains(id));
    } else {
        let front = ids.drop_last();
        let mid = hub::times_reset(users, front);
        law_clocks_set_back(users, front, id);
        law_clocks_set_back(users, front, ids.last());
        if let Some(u) = table::lookup(mid, ids.last()) {
            table::lemma_put_lookup(
                mid,
                ids.last(),
                UserModel { game_time: hub::NO_GAME_TIME, ..u },
                id,
            );
        }
        assert(ids.contains(id) <==> front.contains(id) || ids.last() == id) by {
            if ids.contains(id) {
                let i = choose|i: int| 0 <= i < ids.len() && ids[i] == id;
                if i < front.len() {
                    assert(front[i] == id);
                }
            }
            if front.contains(id) {
                let i = choose|i: int| 0 <= i < front.len() && front[i] == id;
                assert(ids[i] == id);
            }
            if ids.last() == id {
                assert(ids[ids.len() - 1] == id);
            }
        }
    }
}

/// While a player who needs the shared chart has not got it, no game begins, and nothing changes:
/// the server keeps the chart for them. The host, the recorder and who watches do not need it.
pub proof fn law_waits_for_downloads(s: Scene, started: Set<i32>, i: int)
    requires
        s.room.phase == (Phase::LocalChart { started }),
        0 <= i < s.room.users.len(),
        s.room.host != Some(s.room.users[i]),
        s.room.users[i] != -999,
        table::lookup(s.hub.users, s.room.users[i]) matches Some(u) ==> !u.monitor,
        !started.contains(s.room.users[i]),
    ensures
        room::checked(s) == s,
{
}

/// Before the shared chart is with the server, or in a room without a host, no game begins.
pub proof fn law_waits_for_upload(s: Scene, started: Set<i32>)
    requires
        s.room.phase == (Phase::LocalChart { started }),
        !s.room.uploaded || s.room.host is None,
    ensures
        room::checked(s) == s,
{
}

/// Once every player who needs the shared chart has got it, the game begins: the host is told,
/// the server drops its copy of the chart, and everybody learns of the game.
pub proof fn law_begins_when_all_have_it(
    s: Scene,
    started: Set<i32>,
    host: i32,
    id: Seq<char>,
    name: Seq<char>,
    other: Seq<char>,
)
    requires
        s.room.phase == (Phase::LocalChart { started }),
        s.room.uploaded,
        s.room.host == Some(host),
        s.room.local_chart == Some((id, name)),
        table::distinct(s.hub.charts),
        forall|i: int|
            0 <= i < s.room.users.len() ==> {
                let uid = #[trigger] s.room.users[i];
                ||| uid == host
                ||| uid == -999
                ||| table::lookup(s.hub.users, uid) matches Some(u) && u.monitor
                ||| started.contains(uid)
            },
    ensures
        ({
            let t = room::checked(s);
            let all = s.room.users + s.room.monitors;
            let n = s.hub.out.len() as int;
            &&& just_begun(RoomModel { uploaded: false, ..s.room }, t.room)
            &&& table::lookup(t.hub.charts, id) is None
            &&& other != id ==> table::lookup(t.hub.charts, other) == table::lookup(
                s.hub.charts,
                other,
            )
            &&& t.hub.users == hub::times_reset(s.hub.users, s.room.users)
            &&& t.hub.out.len() == n + 5
            &&& t.hub.out.take(n) == s.hub.out
            &&& sent(t.hub.out, n, seq![host], ServerCommandModel::HostReady)
            &&& sent(t.hub.out, n + 3, all, ServerCommandModel::Message(MessageModel::StartPlaying))
            &&& sent(t.hub.out, n + 4, all, ServerCommandModel::ChangeState(RoomState::Playing))
        }),
{
    assert forall|i: int| 0 <= i < s.room.users.len() implies room::exempt(
        host,
        s.hub.users,
        #[trigger] s.room.users[i],
    ) || started.contains(s.room.users[i]) by {}
    table::lemma_without_lookup(s.hub.charts, id, other);
    assert(room::checked(s).hub.out.take(s.hub.out.len() as int) =~= s.hub.out);
}

/// While a chart is being chosen nothing begins and nothing ends by itself.
pub proof fn law_choosing_goes_on(s: Scene)
    requires
        s.room.phase is SelectChart,
    ensures
        room::checked(s) == s,
{
}

/// A list without an id holds all the others, as often and in the order as before.
pub proof fn law_dropped(ids: Seq<i32>, id: i32)
    ensures
        room::dropped(ids, id) == ids.filter(|x: i32| x != id),
    decreases ids.len(),
{
    reveal(Seq::filter);
    if ids.len() > 0 {
        law_dropped(ids.drop_last(), id);
    } else {
        assert(room::dropped(ids, id) =~= ids.filter(|x: i32| x != id));
    }
}

/// Whether a user is in a room, and which one that is.
pub open spec fn is_in(w: WorldModel, uid: i32, u: UserModel, h: u64, r: RoomModel) -> bool {
    &&& table::lookup(w.hub.users, uid) == Some(u)
    &&& u.room == Some(h)
    &&& table::lookup(w.rooms, h) == Some(r)
}

/// Whether nothing has changed but one room, and effects that have been added.
pub open spec fn only_room(w: WorldModel, v: WorldModel, h: u64) -> bool {
    &&& v.hub.users == w.hub.users
    &&& v.hub.charts == w.hub.charts
    &&& v.replays == w.replays
    &&& v.next_room == w.next_room
    &&& other_rooms_same(w, v, h)
    &&& added_to(w.hub.out, v.hub.out)
}

/// Whether the other rooms are as they were.
pub open spec fn other_rooms_same(w: WorldModel, v: WorldModel, h: u64) -> bool {
    forall|k: u64| k != h ==> #[trigger] table::lookup(v.rooms, k) == table::lookup(w.rooms, k)
}

/// Whether effects have been added to others.
pub open spec fn added_to(a: Seq<EffectModel>, b: Seq<EffectModel>) -> bool {
    a.len() <= b.len() && b.take(a.len() as int) == a
}

/// Whether a command is the last thing that everybody in a room has been sent.
pub open spec fn last_sent(v: WorldModel, r: RoomModel, cmd: ServerCommandModel) -> bool {
    sent(v.hub.out, v.hub.out.len() - 1, r.users + r.monitors, cmd)
}

/// The other rooms are as they were.
proof fn lemma_others(w: WorldModel, v: WorldModel, h: u64, q: RoomModel)
    requires
        v.rooms == table::put(w.rooms, h, q),
    ensures
        table::lookup(v.rooms, h) == Some(q),
        other_rooms_same(w, v, h),
{
    table::lemma_put_lookup(w.rooms, h, q, h);
    assert forall|k: u64| k != h implies #[trigger] table::lookup(v.rooms, k) == table::lookup(
        w.rooms,
        k,
    ) by {
        table::lemma_put_lookup(w.rooms, h, q, k);
    }
}

/// What is said in a room reaches everybody in it, and changes nothing.
pub proof fn law_chat(
    w: WorldModel,
    uid: i32,
    u: UserModel,
    h: u64,
    r: RoomModel,
    message: Seq<char>,
    settings: Settings,
    texts: Texts,
    pick: Option<i32>,
)
    requires
        is_in(w, uid, u, h, r),
    ensures
        ({
            let (v, step) = session::processed(
                w,
                uid,
                ClientCommandModel::Chat { message },
                settings,
                texts,
                pick,
            );
            &&& step == StepModel::Reply(Some(ServerCommandModel::Chat(Ok(()))))
            &&& only_room(w, v, h)
            &&& table::lookup(v.rooms, h) == Some(r)
            &&& last_sent(
                v,
                r,
                ServerCommandModel::Message(MessageModel::Chat { user: uid, content: message }),
            )
        }),
{
    reveal(session::said);
    let v = session::said(w, uid, message).0;
    lemma_others(w, v, h, r);
    assert(v.hub.out.take(w.hub.out.len() as int) =~= w.hub.out);
}

/// Only the host locks a room or opens it; then it is locked or open, and everybody learns so.
pub proof fn law_lock(
    w: WorldModel,
    uid: i32,
    u: UserModel,
    h: u64,
    r: RoomModel,
    lock: bool,
    settings: Settings,
    texts: Texts,
    pick: Option<i32>,
)
    requires
        is_in(w, uid, u, h, r),
    ensures
        ({
            let (v, step) = session::processed(
                w,
                uid,
                ClientCommandModel::LockRoom { lock },
                settings,
                texts,
                pick,
            );
            if r.host == Some(uid) {
                &&& step == StepModel::Reply(Some(ServerCommandModel::LockRoom(Ok(()))))
                &&& only_room(w, v, h)
                &&& table::lookup(v.rooms, h) == Some(RoomModel { locked: lock, ..r })
                &&& last_sent(
                    v,
                    r,
                    ServerCommandModel::Message(MessageModel::LockRoom { lock }),
                )
            } else {
                &&& v == w
                &&& step == StepModel::Reply(
                    Some(ServerCommandModel::LockRoom(Err("only host can do this"@))),
                )
            }
        }),
{
    reveal(session::locked);
    let v = session::locked(w, uid, lock).0;
    if r.host == Some(uid) {
        lemma_others(w, v, h, RoomModel { locked: lock, ..r });
        assert(v.hub.out.take(w.hub.out.len() as int) =~= w.hub.out);
    }
}

/// Only the host has the players take turns or not; then they do or do not, and everybody learns
/// so.
pub proof fn law_cycle(
    w: WorldModel,
    uid: i32,
    u: UserModel,
    h: u64,
    r: RoomModel,
    cycle: bool,
    settings: Settings,
    texts: Texts,
    pick: Option<i32>,
)
    requires
        is_in(w, uid, u, h, r),
    ensures
        ({
            let (v, step) = session::processed(
                w,
                uid,
                ClientCommandModel::CycleRoom { cycle },
                settings,
                texts,
                pick,
            );
            if r.host == Some(uid) {
                &&& step == StepModel::Reply(Some(ServerCommandModel::CycleRoom(Ok(()))))
                &&& only_room(w, v, h)
                &&& table::lookup(v.rooms, h) == Some(RoomModel { cycle, ..r })
                &&& last_sent(
                    v,
                    r,
                    ServerCommandModel::Message(MessageModel::CycleRoom { cycle }),
                )
            } else {
                &&& v == w
                &&& step == StepModel::Reply(
                    Some(ServerCommandModel::CycleRoom(Err("only host can do this"@))),
                )
            }
        }),
{
    reveal(session::cycled);
    let v = session::cycled(w, uid, cycle).0;
    if r.host == Some(uid) {
        lemma_others(w, v, h, RoomModel { cycle, ..r });
        assert(v.hub.out.take(w.hub.out.len() as int) =~= w.hub.out);
    }
}

/// A chart is asked for only by the host, and only while one is being chosen; nothing changes
/// before it is there.
pub proof fn law_select_chart(
    w: WorldModel,
    uid: i32,
    u: UserModel,
    h: u64,
    r: RoomModel,
    id: i32,
    settings: Settings,
    texts: Texts,
    pick: Option<i32>,
)
    requires
        is_in(w, uid, u, h, r),
    ensures
        ({
            let (v, step) = session::processed(
                w,
                uid,
                ClientCommandModel::SelectChart { id },
                settings,
                texts,
                pick,
            );
            &&& v == w
            &&& step == (if r.phase is SelectChart && r.host == Some(uid) {
                StepModel::Fetch(Fetch::Chart { room: h, id, online: false })
            } else if r.phase is SelectChart {
                StepModel::Reply(
                    Some(ServerCommandModel::SelectChart(Err("only host can do this"@))),
                )
            } else {
                StepModel::Reply(Some(ServerCommandModel::SelectChart(Err("invalid state"@))))
            })
        }),
{
    reveal(session::chart_choice);
}

/// The chart that has been chosen is the chart of the room, and everybody in it learns so; what
/// is recorded from then on is of that chart.
pub proof fn law_chart_is_chosen(
    w: WorldModel,
    uid: i32,
    h: u64,
    r: RoomModel,
    chart: ChartModel,
    online: bool,
    other: Seq<char>,
)
    requires
        table::lookup(w.rooms, h) == Some(r),
    ensures
        ({
            let v = session::chart_chosen(w, uid, h, chart, online);
            let n = v.hub.out.len() as int;
            &&& table::lookup(v.rooms, h) == Some(RoomModel { chart: Some(chart), ..r })
            &&& other_rooms_same(w, v, h)
            &&& added_to(w.hub.out, v.hub.out)
            &&& v.hub.users == w.hub.users
            &&& v.hub.charts == w.hub.charts
            &&& v.next_room == w.next_room
            &&& sent(
                v.hub.out,
                n - 2,
                r.users + r.monitors,
                ServerCommandModel::Message(
                    MessageModel::SelectChart { user: uid, name: chart.name, id: chart.id },
                ),
            )
            &&& r.phase is SelectChart ==> last_sent(
                v,
                r,
                ServerCommandModel::ChangeState(RoomState::SelectChart(Some(chart.id))),
            )
            &&& online ==> v.replays == w.replays
            &&& !online && table::lookup(w.replays, r.id) is Some ==> (table::lookup(
                v.replays,
                r.id,
            ) matches Some(m) && m.chart_id == chart.id && m.chart_name == chart.name)
            &&& other != r.id ==> table::lookup(v.replays, other) == table::lookup(w.replays, other)
        }),
{
    reveal(session::chart_chosen);
    let v = session::chart_chosen(w, uid, h, chart, online);
    lemma_others(w, v, h, RoomModel { chart: Some(chart), ..r });
    assert(v.hub.out.take(w.hub.out.len() as int) =~= w.hub.out);
    if let Some(m) = table::lookup(w.replays, r.id) {
        let n = replay::RecorderModel { chart_id: chart.id, chart_name: chart.name, ..m };
        table::lemma_put_lookup(w.replays, r.id, n, r.id);
        table::lemma_put_lookup(w.replays, r.id, n, other);
    }
}

/// Only the host asks for a game, and only with a chart; else it is refused, and nothing changes.
pub proof fn law_start_refused(
    w: WorldModel,
    uid: i32,
    u: UserModel,
    h: u64,
    r: RoomModel,
    settings: Settings,
    texts: Texts,
    pick: Option<i32>,
)
    requires
        is_in(w, uid, u, h, r),
        !(r.phase is LocalChart),
        r.host != Some(uid) || r.chart is None,
    ensures
        ({
            let (v, step) = session::processed(
                w,
                uid,
                ClientCommandModel::RequestStart,
                settings,
                texts,
                pick,
            );
            &&& v == w
            &&& step == StepModel::Reply(
                Some(
                    ServerCommandModel::RequestStart(
                        Err(
                            if r.host != Some(uid) {
                                "only host can do this"@
                            } else {
                                texts.start_no_chart_selected@
                            },
                        ),
                    ),
                ),
            )
        }),
{
    reveal(session::start_requested);
}

/// When the host asks for a game, everybody else in the room is asked to be ready, and the host
/// is.
pub proof fn law_request_start(
    w: WorldModel,
    uid: i32,
    u: UserModel,
    h: u64,
    r: RoomModel,
    other: i32,
    settings: Settings,
    texts: Texts,
    pick: Option<i32>,
)
    requires
        is_in(w, uid, u, h, r),
        !(r.phase is LocalChart),
        r.host == Some(uid),
        r.chart is Some,
        other != uid,
        r.users.contains(other) || r.monitors.contains(other),
    ensures
        ({
            let (v, step) = session::processed(
                w,
                uid,
                ClientCommandModel::RequestStart,
                settings,
                texts,
                pick,
            );
            &&& step == StepModel::Reply(Some(ServerCommandModel::RequestStart(Ok(()))))
            &&& other_rooms_same(w, v, h)
            &&& v.replays == w.replays
            &&& v.hub.charts == w.hub.charts
            &&& table::lookup(v.rooms, h) == Some(
                RoomModel { phase: Phase::WaitForReady { started: set![uid] }, ..r },
            )
            &&& v.hub.users == hub::times_reset(w.hub.users, r.users)
            &&& sent(
                v.hub.out,
                w.hub.out.len() as int + 1,
                r.users + r.monitors,
                ServerCommandModel::Message(MessageModel::GameStart { user: uid }),
            )
            &&& sent(
                v.hub.out,
                w.hub.out.len() as int + 2,
                r.users + r.monitors,
                ServerCommandModel::ChangeState(RoomState::WaitingForReady),
            )
            &&& v.hub.out.last() == (EffectModel::WatchersReady { room: h })
        }),
{
    reveal(session::start_requested);
    let v = session::start_requested(w, uid, texts.start_no_chart_selected@).0;
    let a = session::asked_scene(w, r, uid, h);
    let one = Set::empty().insert(uid);
    assert(one =~= set![uid]);
    law_waits_for_everybody(a, one, other);
    lemma_others(w, v, h, a.room);
}

/// When a host who is alone in the room asks for a game, it begins at once.
pub proof fn law_start_alone(
    w: WorldModel,
    uid: i32,
    u: UserModel,
    h: u64,
    r: RoomModel,
    settings: Settings,
    texts: Texts,
    pick: Option<i32>,
)
    requires
        is_in(w, uid, u, h, r),
        !(r.phase is LocalChart),
        r.host == Some(uid),
        r.chart is Some,
        r.users == seq![uid],
        r.monitors.len() == 0,
    ensures
        ({
            let (v, step) = session::processed(
                w,
                uid,
                ClientCommandModel::RequestStart,
                settings,
                texts,
                pick,
            );
            &&& step == StepModel::Reply(Some(ServerCommandModel::RequestStart(Ok(()))))
            &&& other_rooms_same(w, v, h)
            &&& table::lookup(v.rooms, h) matches Some(q) && just_begun(r, q)
        }),
{
    reveal(session::start_requested);
    let v = session::start_requested(w, uid, texts.start_no_chart_selected@).0;
    let a = session::asked_scene(w, r, uid, h);
    let one = Set::empty().insert(uid);
    assert(one =~= set![uid]);
    assert forall|k: i32|
        #![trigger one.contains(k)]
        a.room.users.contains(k) || a.room.monitors.contains(k) implies one.contains(k) by {}
    law_begins_when_all_ready(a, one);
    lemma_others(w, v, h, room::checked(a).room);
}

/// Whoever says that they are ready is, unless they were; and the game waits for the others.
pub proof fn law_ready(
    w: WorldModel,
    uid: i32,
    u: UserModel,
    h: u64,
    r: RoomModel,
    started: Set<i32>,
    settings: Settings,
    texts: Texts,
    pick: Option<i32>,
)
    requires
        is_in(w, uid, u, h, r),
        r.phase == (Phase::WaitForReady { started }),
    ensures
        ({
            let (v, step) = session::processed(
                w,
                uid,
                ClientCommandModel::Ready,
                settings,
                texts,
                pick,
            );
            if started.contains(uid) {
                &&& v == w
                &&& step == StepModel::Reply(
                    Some(ServerCommandModel::Ready(Err("already ready"@))),
                )
            } else {
                &&& step == StepModel::Reply(Some(ServerCommandModel::Ready(Ok(()))))
                &&& other_rooms_same(w, v, h)
                &&& v.replays == w.replays
                &&& v.hub.charts == w.hub.charts
                &&& sent(
                    v.hub.out,
                    w.hub.out.len() as int + 1,
                    r.users + r.monitors,
                    ServerCommandModel::Message(MessageModel::Ready { user: uid }),
                )
                &&& (exists|other: i32|
                    other != uid && !started.contains(other) && (#[trigger] r.users.contains(other)
                        || r.monitors.contains(other))) ==> {
                    &&& only_room(w, v, h)
                    &&& table::lookup(v.rooms, h) == Some(
                        RoomModel {
                            phase: Phase::WaitForReady { started: started.insert(uid) },
                            ..r
                        },
                    )
                }
                &&& (forall|other: i32|
                    other != uid && (#[trigger] r.users.contains(other) || r.monitors.contains(
                        other,
                    )) ==> started.contains(other)) ==> (table::lookup(v.rooms, h) matches Some(q)
                    && just_begun(r, q))
            }
        }),
{
    reveal(session::readied);
    if !started.contains(uid) {
        let v = session::readied(w, uid).0;
        let more = started.insert(uid);
        let a = room::announced(
            world::scene_in(w, RoomModel { phase: Phase::WaitForReady { started: more }, ..r }),
            MessageModel::Ready { user: uid },
        );
        lemma_others(w, v, h, room::checked(a).room);
        assert(a.hub.out.take(w.hub.out.len() as int) =~= w.hub.out);
        if exists|other: i32|
            other != uid && !started.contains(other) && (#[trigger] r.users.contains(other)
                || r.monitors.contains(other)) {
            let other = choose|other: i32|
                other != uid && !started.contains(other) && (#[trigger] r.users.contains(other)
                    || r.monitors.contains(other));
            law_waits_for_everybody(a, more, other);
        }
        if forall|other: i32|
            other != uid && (#[trigger] r.users.contains(other) || r.monitors.contains(other))
                ==> started.contains(other) {
            assert forall|k: i32|
                #![trigger more.contains(k)]
                a.room.users.contains(k) || a.room.monitors.contains(k) implies more.contains(k) by {
                assert(r.users.contains(k) || r.monitors.contains(k));
            }
            law_begins_when_all_ready(a, more);
        }
    }
}

/// Whoever was ready and takes it back is not; if it is the host, there is no game, and a chart
/// can be chosen again.
pub proof fn law_cancel_ready(
    w: WorldModel,
    uid: i32,
    u: UserModel,
    h: u64,
    r: RoomModel,
    started: Set<i32>,
    settings: Settings,
    texts: Texts,
    pick: Option<i32>,
)
    requires
        is_in(w, uid, u, h, r),
        r.phase == (Phase::WaitForReady { started }),
    ensures
        ({
            let (v, step) = session::processed(
                w,
                uid,
                ClientCommandModel::CancelReady,
                settings,
                texts,
                pick,
            );
            if !started.contains(uid) {
                &&& v == w
                &&& step == StepModel::Reply(
                    Some(ServerCommandModel::CancelReady(Err("not ready"@))),
                )
            } else {
                &&& step == StepModel::Reply(Some(ServerCommandModel::CancelReady(Ok(()))))
                &&& only_room(w, v, h)
                &&& r.host == Some(uid) ==> table::lookup(v.rooms, h) == Some(
                    RoomModel { phase: Phase::SelectChart, ..r },
                ) && sent(
                    v.hub.out,
                    w.hub.out.len() as int + 1,
                    r.users + r.monitors,
                    ServerCommandModel::Message(MessageModel::CancelGame { user: uid }),
                )
                &&& r.host != Some(uid) ==> table::lookup(v.rooms, h) == Some(
                    RoomModel {
                        phase: Phase::WaitForReady { started: started.remove(uid) },
                        ..r
                    },
                ) && last_sent(
                    v,
                    r,
                    ServerCommandModel::Message(MessageModel::CancelReady { user: uid }),
                )
            }
        }),
{
    reveal(session::ready_canceled);
    if started.contains(uid) {
        let v = session::ready_canceled(w, uid).0;
        let q = if r.host == Some(uid) {
            RoomModel { phase: Phase::SelectChart, ..r }
        } else {
            RoomModel { phase: Phase::WaitForReady { started: started.remove(uid) }, ..r }
        };
        lemma_others(w, v, h, q);
        assert(v.hub.out.take(w.hub.out.len() as int) =~= w.hub.out);
    }
}

/// A player who gives a game up is among those who have, once; the game goes on for the others,
/// and is over when nobody is left who plays.
pub proof fn law_abort(
    w: WorldModel,
    uid: i32,
    u: UserModel,
    h: u64,
    r: RoomModel,
    results: Map<i32, Record>,
    aborted: Set<i32>,
    settings: Settings,
    texts: Texts,
    pick: Option<i32>,
)
    requires
        is_in(w, uid, u, h, r),
        r.phase == (Phase::Playing { results, aborted }),
    ensures
        ({
            let (v, step) = session::processed(
                w,
                uid,
                ClientCommandModel::Abort,
                settings,
                texts,
                pick,
            );
            if results.dom().contains(uid) {
                &&& v == w
                &&& step == StepModel::Reply(
                    Some(ServerCommandModel::Abort(Err("already uploaded"@))),
                )
            } else if aborted.contains(uid) {
                &&& v == w
                &&& step == StepModel::Reply(Some(ServerCommandModel::Abort(Err("aborted"@))))
            } else {
                &&& step == StepModel::Reply(Some(ServerCommandModel::Abort(Ok(()))))
                &&& only_room(w, v, h)
                &&& sent(
                    v.hub.out,
                    w.hub.out.len() as int + 1,
                    r.users + r.monitors,
                    ServerCommandModel::Message(MessageModel::Abort { user: uid }),
                )
                &&& (exists|i: int|
                    0 <= i < r.users.len() && #[trigger] r.users[i] != uid
                        && !results.dom().contains(r.users[i]) && !aborted.contains(r.users[i]))
                    ==> table::lookup(v.rooms, h) == Some(
                    RoomModel {
                        phase: Phase::Playing { results, aborted: aborted.insert(uid) },
                        ..r
                    },
                )
                &&& (forall|i: int|
                    0 <= i < r.users.len() && #[trigger] r.users[i] != uid
                        ==> results.dom().contains(r.users[i]) || aborted.contains(r.users[i]))
                    ==> (table::lookup(v.rooms, h) matches Some(q) && q.phase
                    == Phase::SelectChart && q.users == r.users && q.monitors == r.monitors)
            }
        }),
{
    reveal(session::aborted);
    if !results.dom().contains(uid) && !aborted.contains(uid) {
        let v = session::aborted(w, uid).0;
        let more = aborted.insert(uid);
        let a = room::announced(
            world::scene_in(
                w,
                RoomModel { phase: Phase::Playing { results, aborted: more }, ..r },
            ),
            MessageModel::Abort { user: uid },
        );
        lemma_others(w, v, h, room::checked(a).room);
        assert(v.hub.out.take(w.hub.out.len() as int) =~= w.hub.out);
        if exists|i: int|
            0 <= i < r.users.len() && #[trigger] r.users[i] != uid && !results.dom().contains(
                r.users[i],
            ) && !aborted.contains(r.users[i]) {
            let i = choose|i: int|
                0 <= i < r.users.len() && #[trigger] r.users[i] != uid && !results.dom().contains(
                    r.users[i],
                ) && !aborted.contains(r.users[i]);
            law_game_goes_on(a, results, more, i);
        }
        if forall|i: int|
            0 <= i < r.users.len() && #[trigger] r.users[i] != uid ==> results.dom().contains(
                r.users[i],
            ) || aborted.contains(r.users[i]) {
            law_game_over(a, results, more);
        }
    }
}

/// The result of a player's game is kept, once, and only by the player's own record; the game
/// goes on for the others, and is over when the last one is done, and then its replays are saved.
pub proof fn law_result(
    w: WorldModel,
    uid: i32,
    h: u64,
    r: RoomModel,
    results: Map<i32, Record>,
    aborted: Set<i32>,
    record: Record,
)
    requires
        table::lookup(w.rooms, h) == Some(r),
        r.phase == (Phase::Playing { results, aborted }),
    ensures
        ({
            let (v, answer) = session::finished(w, uid, h, record);
            &&& record.player != uid ==> v == w && answer == Err::<(), Seq<char>>(
                "invalid record"@,
            )
            &&& record.player == uid ==> {
                &&& only_room(w, v, h)
                &&& sent(
                    v.hub.out,
                    w.hub.out.len() as int + 1,
                    r.users + r.monitors,
                    ServerCommandModel::Message(
                        MessageModel::Played {
                            user: uid,
                            score: record.score,
                            accuracy: record.accuracy,
                            full_combo: record.full_combo,
                        },
                    ),
                )
                &&& aborted.contains(uid) ==> answer == Err::<(), Seq<char>>("aborted"@)
                    && table::lookup(v.rooms, h) == Some(r)
                &&& !aborted.contains(uid) && results.dom().contains(uid) ==> answer == Err::<
                    (),
                    Seq<char>,
                >("already uploaded"@) && table::lookup(v.rooms, h) == Some(
                    RoomModel {
                        phase: Phase::Playing { results: results.insert(uid, record), aborted },
                        ..r
                    },
                )
                &&& !aborted.contains(uid) && !results.dom().contains(uid) ==> {
                    &&& answer == Ok::<(), Seq<char>>(())
                    &&& (exists|i: int|
                        0 <= i < r.users.len() && #[trigger] r.users[i] != uid
                            && !results.dom().contains(r.users[i]) && !aborted.contains(
                            r.users[i],
                        )) ==> {
                        &&& table::lookup(v.rooms, h) == Some(
                            RoomModel {
                                phase: Phase::Playing {
                                    results: results.insert(uid, record),
                                    aborted,
                                },
                                ..r
                            },
                        )
                        &&& !(v.hub.out.last() is SaveReplays)
                    }
                    &&& (forall|i: int|
                        0 <= i < r.users.len() && #[trigger] r.users[i] != uid
                            ==> results.dom().contains(r.users[i]) || aborted.contains(r.users[i]))
                        ==> {
                        &&& table::lookup(v.rooms, h) matches Some(q) && q.phase
                            == Phase::SelectChart && q.users == r.users && q.monitors == r.monitors
                        &&& v.hub.out.last() == (EffectModel::SaveReplays { room: r.id })
                    }
                }
            }
        }),
{
    reveal(session::finished);
    if record.player == uid {
        let v = session::finished(w, uid, h, record).0;
        let more = results.insert(uid, record);
        let s = room::announced(
            world::scene_in(w, r),
            MessageModel::Played {
                user: uid,
                score: record.score,
                accuracy: record.accuracy,
                full_combo: record.full_combo,
            },
        );
        let t = Scene {
            room: RoomModel { phase: Phase::Playing { results: more, aborted }, ..s.room },
            ..s
        };
        assert(v.hub.out.take(w.hub.out.len() as int) =~= w.hub.out);
        if aborted.contains(uid) {
            lemma_others(w, v, h, r);
        } else if results.dom().contains(uid) {
            lemma_others(w, v, h, t.room);
        } else {
            lemma_others(w, v, h, room::checked(t).room);
            if exists|i: int|
                0 <= i < r.users.len() && #[trigger] r.users[i] != uid && !results.dom().contains(
                    r.users[i],
                ) && !aborted.contains(r.users[i]) {
                let i = choose|i: int|
                    0 <= i < r.users.len() && #[trigger] r.users[i] != uid
                        && !results.dom().contains(r.users[i]) && !aborted.contains(r.users[i]);
                law_game_goes_on(t, more, aborted, i);
            }
            if forall|i: int|
                0 <= i < r.users.len() && #[trigger] r.users[i] != uid ==> results.dom().contains(
                    r.users[i],
                ) || aborted.contains(r.users[i]) {
                law_game_over(t, more, aborted);
            }
        }
    }
}

/// The result of a game is asked of the service for the room that the player is in.
pub proof fn law_played(
    w: WorldModel,
    uid: i32,
    u: UserModel,
    h: u64,
    r: RoomModel,
    id: i32,
    settings: Settings,
    texts: Texts,
    pick: Option<i32>,
)
    requires
        is_in(w, uid, u, h, r),
    ensures
        session::processed(w, uid, ClientCommandModel::Played { id }, settings, texts, pick) == (
            w,
            StepModel::Fetch(Fetch::Record { room: h, id }),
        ),
{
}

/// Outside of what they are for, being ready, not being ready and giving up are answered and do
/// nothing.
pub proof fn law_out_of_season(
    w: WorldModel,
    uid: i32,
    u: UserModel,
    h: u64,
    r: RoomModel,
    settings: Settings,
    texts: Texts,
    pick: Option<i32>,
)
    requires
        is_in(w, uid, u, h, r),
    ensures
        !(r.phase is WaitForReady) ==> session::processed(
            w,
            uid,
            ClientCommandModel::Ready,
            settings,
            texts,
            pick,
        ) == (w, StepModel::Reply(Some(ServerCommandModel::Ready(Ok(()))))),
        !(r.phase is WaitForReady) ==> session::processed(
            w,
            uid,
            ClientCommandModel::CancelReady,
            settings,
            texts,
            pick,
        ) == (w, StepModel::Reply(Some(ServerCommandModel::CancelReady(Ok(()))))),
        !(r.phase is Playing) ==> session::processed(
            w,
            uid,
            ClientCommandModel::Abort,
            settings,
            texts,
            pick,
        ) == (w, StepModel::Reply(Some(ServerCommandModel::Abort(Ok(()))))),
{
    reveal(session::readied);
    reveal(session::ready_canceled);
    reveal(session::aborted);
}

/// The host, and nobody else, shares a chart of their own while one is being chosen: everybody
/// learns which, and nobody has got it yet.
pub proof fn law_share_chart(
    w: WorldModel,
    uid: i32,
    u: UserModel,
    h: u64,
    r: RoomModel,
    id: Seq<char>,
    name: Seq<char>,
    settings: Settings,
    texts: Texts,
    pick: Option<i32>,
)
    requires
        is_in(w, uid, u, h, r),
    ensures
        ({
            let (v, step) = session::processed(
                w,
                uid,
                ClientCommandModel::SelectLocalChart { id, name },
                settings,
                texts,
                pick,
            );
            if r.phase is SelectChart && r.host == Some(uid) {
                &&& step == StepModel::Reply(Some(ServerCommandModel::SelectLocalChart(Ok(()))))
                &&& only_room(w, v, h)
                &&& table::lookup(v.rooms, h) == Some(
                    RoomModel {
                        local_chart: Some((id, name)),
                        phase: Phase::LocalChart { started: Set::empty() },
                        ..r
                    },
                )
                &&& sent(
                    v.hub.out,
                    w.hub.out.len() as int,
                    r.users + r.monitors,
                    ServerCommandModel::ChangeLocalChart { local: true, chart_id: id },
                )
                &&& sent(
                    v.hub.out,
                    w.hub.out.len() as int + 2,
                    r.users + r.monitors,
                    ServerCommandModel::Message(
                        MessageModel::SelectLocalChart { user: uid, name, id },
                    ),
                )
                &&& last_sent(v, r, ServerCommandModel::ChangeState(RoomState::LocalChart))
            } else {
                &&& v == w
                &&& step == StepModel::Reply(
                    Some(
                        ServerCommandModel::SelectLocalChart(
                            Err(
                                if r.phase is SelectChart {
                                    "only host can do this"@
                                } else {
                                    "invalid state"@
                                },
                            ),
                        ),
                    ),
                )
            }
        }),
{
    reveal(session::local_chosen);
    if r.phase is SelectChart && r.host == Some(uid) {
        let v = session::local_chosen(w, uid, id, name).0;
        lemma_others(
            w,
            v,
            h,
            RoomModel {
                local_chart: Some((id, name)),
                phase: Phase::LocalChart { started: Set::empty() },
                ..r
            },
        );
        assert(v.hub.out.take(w.hub.out.len() as int) =~= w.hub.out);
    }
}

/// A host who asks for a game while a chart is being shared is told to serve that chart, and
/// nothing else happens.
pub proof fn law_start_serving(
    w: WorldModel,
    uid: i32,
    u: UserModel,
    h: u64,
    r: RoomModel,
    settings: Settings,
    texts: Texts,
    pick: Option<i32>,
)
    requires
        is_in(w, uid, u, h, r),
        r.phase is LocalChart,
        r.host == Some(uid),
    ensures
        ({
            let (v, step) = session::processed(
                w,
                uid,
                ClientCommandModel::RequestStart,
                settings,
                texts,
                pick,
            );
            match r.local_chart {
                Some((chart_id, chart_name)) => {
                    &&& step == StepModel::Reply(Some(ServerCommandModel::RequestStart(Ok(()))))
                    &&& v.rooms == w.rooms
                    &&& only_room(w, v, h)
                    &&& v.hub.out.len() == w.hub.out.len() + 1
                    &&& sent(
                        v.hub.out,
                        w.hub.out.len() as int,
                        seq![uid],
                        ServerCommandModel::StartServing { chart_id, chart_name },
                    )
                },
                None => v == w && step == StepModel::Reply(
                    Some(ServerCommandModel::RequestStart(Err(texts.start_no_chart_selected@))),
                ),
            }
        }),
{
    reveal(session::start_requested);
    let v = session::start_requested(w, uid, texts.start_no_chart_selected@).0;
    assert(v.hub.out.take(w.hub.out.len() as int) =~= w.hub.out);
}

/// Who is told to fetch a shared chart: every player but the host and the recorder.
pub proof fn law_receivers(users: Seq<i32>, host: i32)
    ensures
        session::receivers(users, host) == users.filter(|x: i32| x != host && x != -999),
    decreases users.len(),
{
    reveal(Seq::filter);
    if users.len() > 0 {
        law_receivers(users.drop_last(), host);
    } else {
        assert(session::receivers(users, host) =~= users.filter(
            |x: i32| x != host && x != -999,
        ));
    }
}

/// Only the host hands out the shared chart: the players who need it are told where to fetch it
/// and which one it is, and the room waits for them.
pub proof fn law_send_chart(
    w: WorldModel,
    uid: i32,
    u: UserModel,
    h: u64,
    r: RoomModel,
    started: Set<i32>,
    id: Seq<char>,
    name: Seq<char>,
    addr: Seq<char>,
    port: u16,
    settings: Settings,
    texts: Texts,
    pick: Option<i32>,
)
    requires
        is_in(w, uid, u, h, r),
    ensures
        ({
            let (v, step) = session::processed(
                w,
                uid,
                ClientCommandModel::SendChart { addr, port },
                settings,
                texts,
                pick,
            );
            &&& r.host != Some(uid) ==> v == w && step == StepModel::Reply(
                Some(ServerCommandModel::SendChart(Err("only host can do this"@))),
            )
            &&& r.host == Some(uid) && r.local_chart is None ==> v == w && step
                == StepModel::Reply(
                Some(ServerCommandModel::SendChart(Err(texts.start_no_chart_selected@))),
            )
            &&& r.host == Some(uid) && r.local_chart == Some((id, name)) ==> {
                &&& step == StepModel::Reply(Some(ServerCommandModel::SendChart(Ok(()))))
                &&& other_rooms_same(w, v, h)
                &&& sent(
                    v.hub.out,
                    w.hub.out.len() as int + 1,
                    r.users + r.monitors,
                    ServerCommandModel::Message(MessageModel::SendChart { user: uid }),
                )
                &&& sent(
                    v.hub.out,
                    w.hub.out.len() as int + 2,
                    r.users.filter(|x: i32| x != uid && x != -999),
                    ServerCommandModel::StartDownload {
                        host_id: uid,
                        host_name: u.name,
                        addr: settings.public_ip@,
                        port: match settings.web_port {
                            Some(p) => p,
                            None => 0,
                        },
                        chart_id: id,
                        chart_name: name,
                    },
                )
                &&& r.phase == (Phase::LocalChart { started }) && !r.uploaded ==> only_room(w, v, h)
                    && table::lookup(v.rooms, h) == Some(r)
            }
        }),
{
    reveal(session::chart_sent);
    law_receivers(r.users, uid);
    if r.host == Some(uid) && r.local_chart == Some((id, name)) {
        let v = session::chart_sent(w, uid, settings, texts.start_no_chart_selected@).0;
        let s = room::announced(world::scene_in(w, r), MessageModel::SendChart { user: uid });
        let t = Scene {
            hub: hub::emitted(
                s.hub,
                EffectModel::Send {
                    to: session::receivers(r.users, uid),
                    cmd: ServerCommandModel::StartDownload {
                        host_id: uid,
                        host_name: u.name,
                        addr: settings.public_ip@,
                        port: match settings.web_port {
                            Some(p) => p,
                            None => 0,
                        },
                        chart_id: id,
                        chart_name: name,
                    },
                },
            ),
            ..s
        };
        lemma_others(w, v, h, room::checked(t).room);
        if r.phase == (Phase::LocalChart { started }) && !r.uploaded {
            law_waits_for_upload(t, started);
            assert(v.hub.out.take(w.hub.out.len() as int) =~= w.hub.out);
        }
    }
}

/// A chart that is left with the server is there for everybody, under its own id alone, and the
/// room of who left it knows.
pub proof fn law_upload_chart(
    w: WorldModel,
    uid: i32,
    u: UserModel,
    h: u64,
    r: RoomModel,
    id: Seq<char>,
    data: Seq<u8>,
    other: Seq<char>,
    settings: Settings,
    texts: Texts,
    pick: Option<i32>,
)
    requires
        is_in(w, uid, u, h, r),
    ensures
        ({
            let (v, step) = session::processed(
                w,
                uid,
                ClientCommandModel::UploadChart { id, data },
                settings,
                texts,
                pick,
            );
            &&& step == StepModel::Reply(Some(ServerCommandModel::UploadChart(Ok(()))))
            &&& table::lookup(v.hub.charts, id) == Some(data)
            &&& other != id ==> table::lookup(v.hub.charts, other) == table::lookup(
                w.hub.charts,
                other,
            )
            &&& table::lookup(v.rooms, h) == Some(RoomModel { uploaded: true, ..r })
            &&& other_rooms_same(w, v, h)
            &&& v.hub.users == w.hub.users
            &&& v.hub.out == w.hub.out
            &&& v.replays == w.replays
        }),
{
    reveal(session::uploaded);
    let v = session::uploaded(w, uid, id, data);
    table::lemma_put_lookup(w.hub.charts, id, data, id);
    table::lemma_put_lookup(w.hub.charts, id, data, other);
    lemma_others(w, v, h, RoomModel { uploaded: true, ..r });
}

/// Whoever fetches a shared chart gets it as it is with the server, and changes nothing.
pub proof fn law_download_chart(
    w: WorldModel,
    uid: i32,
    id: Seq<char>,
    settings: Settings,
    texts: Texts,
    pick: Option<i32>,
)
    ensures
        ({
            let (v, step) = session::processed(
                w,
                uid,
                ClientCommandModel::DownloadChart { id },
                settings,
                texts,
                pick,
            );
            &&& v == w
            &&& match table::lookup(w.hub.charts, id) {
                Some(data) => step == StepModel::Reply(
                    Some(ServerCommandModel::DownloadChart(Ok(data))),
                ),
                None => step == StepModel::Reply(
                    Some(ServerCommandModel::DownloadChart(Err("chart not found: "@ + id))),
                ),
            }
        }),
{
    reveal(session::shared_chart);
}

/// A player who says that they have got the shared chart has, unless they had; the game waits for
/// the others who need it, and the server keeps the chart until then.
pub proof fn law_download_ready(
    w: WorldModel,
    uid: i32,
    u: UserModel,
    h: u64,
    r: RoomModel,
    started: Set<i32>,
    settings: Settings,
    texts: Texts,
    pick: Option<i32>,
)
    requires
        is_in(w, uid, u, h, r),
        r.phase == (Phase::LocalChart { started }),
    ensures
        ({
            let (v, step) = session::processed(
                w,
                uid,
                ClientCommandModel::DownloadReady,
                settings,
                texts,
                pick,
            );
            if !r.uploaded {
                &&& v == w
                &&& step == StepModel::Reply(
                    Some(ServerCommandModel::DownloadReady(Err(texts.chart_not_uploaded_yet@))),
                )
            } else if started.contains(uid) {
                &&& v == w
                &&& step == StepModel::Reply(
                    Some(ServerCommandModel::DownloadReady(Err("already ready"@))),
                )
            } else {
                &&& step == StepModel::Reply(Some(ServerCommandModel::DownloadReady(Ok(()))))
                &&& other_rooms_same(w, v, h)
                &&& v.replays == w.replays
                &&& sent(
                    v.hub.out,
                    w.hub.out.len() as int + 1,
                    r.users + r.monitors,
                    ServerCommandModel::Message(MessageModel::DownloadReady { user: uid }),
                )
                &&& (exists|i: int|
                    0 <= i < r.users.len() && #[trigger] r.users[i] != uid && r.host != Some(
                        r.users[i],
                    ) && r.users[i] != -999 && (table::lookup(w.hub.users, r.users[i]) matches Some(
                        o,
                    ) ==> !o.monitor) && !started.contains(r.users[i])) ==> {
                    &&& only_room(w, v, h)
                    &&& table::lookup(v.rooms, h) == Some(
                        RoomModel {
                            phase: Phase::LocalChart { started: started.insert(uid) },
                            ..r
                        },
                    )
                }
            }
        }),
{
    reveal(session::downloaded);
    if r.uploaded && !started.contains(uid) {
        let v = session::downloaded(w, uid, texts.chart_not_uploaded_yet@).0;
        let more = started.insert(uid);
        let a = room::announced(
            world::scene_in(w, RoomModel { phase: Phase::LocalChart { started: more }, ..r }),
            MessageModel::DownloadReady { user: uid },
        );
        lemma_others(w, v, h, room::checked(a).room);
        assert(a.hub.out.take(w.hub.out.len() as int) =~= w.hub.out);
        if exists|i: int|
            0 <= i < r.users.len() && #[trigger] r.users[i] != uid && r.host != Some(r.users[i])
                && r.users[i] != -999 && (table::lookup(w.hub.users, r.users[i]) matches Some(o)
                ==> !o.monitor) && !started.contains(r.users[i]) {
            let i = choose|i: int|
                0 <= i < r.users.len() && #[trigger] r.users[i] != uid && r.host != Some(r.users[i])
                    && r.users[i] != -999 && (table::lookup(w.hub.users, r.users[i]) matches Some(o)
                    ==> !o.monitor) && !started.contains(r.users[i]);
            law_waits_for_downloads(a, more, i);
        }
    }
}

/// Once the last player who needs the shared chart has got it, the game begins.
pub proof fn law_last_download(
    w: WorldModel,
    uid: i32,
    u: UserModel,
    h: u64,
    r: RoomModel,
    started: Set<i32>,
    host: i32,
    id: Seq<char>,
    name: Seq<char>,
    settings: Settings,
    texts: Texts,
    pick: Option<i32>,
)
    requires
        is_in(w, uid, u, h, r),
        r.phase == (Phase::LocalChart { started }),
        r.uploaded,
        !started.contains(uid),
        r.host == Some(host),
        r.local_chart == Some((id, name)),
        table::distinct(w.hub.charts),
        forall|i: int|
            0 <= i < r.users.len() ==> {
                let o = #[trigger] r.users[i];
                ||| o == uid
                ||| o == host
                ||| o == -999
                ||| table::lookup(w.hub.users, o) matches Some(k) && k.monitor
                ||| started.contains(o)
            },
    ensures
        ({
            let (v, step) = session::processed(
                w,
                uid,
                ClientCommandModel::DownloadReady,
                settings,
                texts,
                pick,
            );
            &&& step == StepModel::Reply(Some(ServerCommandModel::DownloadReady(Ok(()))))
            &&& table::lookup(v.rooms, h) matches Some(q) && just_begun(
                RoomModel { uploaded: false, ..r },
                q,
            )
            &&& table::lookup(v.hub.charts, id) is None
        }),
{
    reveal(session::downloaded);
    let v = session::downloaded(w, uid, texts.chart_not_uploaded_yet@).0;
    let more = started.insert(uid);
    let a = room::announced(
        world::scene_in(w, RoomModel { phase: Phase::LocalChart { started: more }, ..r }),
        MessageModel::DownloadReady { user: uid },
    );
    law_begins_when_all_have_it(a, more, host, id, name, id);
    lemma_others(w, v, h, room::checked(a).room);
}

/// Only the host stops sharing a chart: the server drops it, nobody has got it any more, and
/// everybody learns so.
pub proof fn law_cancel_local_chart(
    w: WorldModel,
    uid: i32,
    u: UserModel,
    h: u64,
    r: RoomModel,
    other: Seq<char>,
    settings: Settings,
    texts: Texts,
    pick: Option<i32>,
)
    requires
        is_in(w, uid, u, h, r),
        table::distinct(w.hub.charts),
    ensures
        ({
            let (v, step) = session::processed(
                w,
                uid,
                ClientCommandModel::CancelLocalChart,
                settings,
                texts,
                pick,
            );
            if r.host != Some(uid) {
                &&& v == w
                &&& step == StepModel::Reply(
                    Some(ServerCommandModel::CancelLocalChart(Err("only host can do this"@))),
                )
            } else {
                &&& step == StepModel::Reply(Some(ServerCommandModel::CancelLocalChart(Ok(()))))
                &&& other_rooms_same(w, v, h)
                &&& v.hub.users == w.hub.users
                &&& v.replays == w.replays
                &&& table::lookup(v.rooms, h) == Some(
                    RoomModel {
                        uploaded: false,
                        phase: if r.phase is LocalChart {
                            Phase::LocalChart { started: Set::empty() }
                        } else {
                            r.phase
                        },
                        ..r
                    },
                )
                &&& r.local_chart matches Some((id, _)) ==> table::lookup(v.hub.charts, id) is None
                    && (other != id ==> table::lookup(v.hub.charts, other) == table::lookup(
                    w.hub.charts,
                    other,
                ))
                &&& r.local_chart is None ==> v.hub.charts == w.hub.charts
                &&& sent(
                    v.hub.out,
                    w.hub.out.len() as int,
                    r.users + r.monitors,
                    ServerCommandModel::LocalChartCanceled,
                )
            }
        }),
{
    reveal(session::local_canceled);
    if r.host == Some(uid) {
        let v = session::local_canceled(w, uid).0;
        let q = RoomModel {
            uploaded: false,
            phase: if r.phase is LocalChart {
                Phase::LocalChart { started: Set::empty() }
            } else {
                r.phase
            },
            ..r
        };
        lemma_others(w, v, h, q);
        if let Some((id, _)) = r.local_chart {
            table::lemma_without_lookup(w.hub.charts, id, other);
        }
    }
}

/// A player who takes it back that they have got the shared chart has not, and nothing else
/// changes.
pub proof fn law_cancel_download_ready(
    w: WorldModel,
    uid: i32,
    u: UserModel,
    h: u64,
    r: RoomModel,
    settings: Settings,
    texts: Texts,
    pick: Option<i32>,
)
    requires
        is_in(w, uid, u, h, r),
    ensures
        ({
            let (v, step) = session::processed(
                w,
                uid,
                ClientCommandModel::CancelDownloadReady,
                settings,
                texts,
                pick,
            );
            &&& step == StepModel::Reply(Some(ServerCommandModel::CancelDownloadReady(Ok(()))))
            &&& only_room(w, v, h)
            &&& v.hub.out == w.hub.out
            &&& match r.phase {
                Phase::LocalChart { started } => table::lookup(v.rooms, h) == Some(
                    RoomModel {
                        phase: Phase::LocalChart { started: started.remove(uid) },
                        ..r
                    },
                ),
                _ => table::lookup(v.rooms, h) == Some(r),
            }
        }),
{
    reveal(session::download_canceled);
    let v = session::download_canceled(w, uid).0;
    assert(v.hub.out.take(w.hub.out.len() as int) =~= w.hub.out);
    if let Phase::LocalChart { started } = r.phase {
        lemma_others(
            w,
            v,
            h,
            RoomModel { phase: Phase::LocalChart { started: started.remove(uid) }, ..r },
        );
    }
}

/// Only the host goes back to a chart of the service, and only while no game is on or about to
/// be; what was being shared is no longer.
pub proof fn law_back_on_line(
    w: WorldModel,
    uid: i32,
    u: UserModel,
    h: u64,
    r: RoomModel,
    id: i32,
    settings: Settings,
    texts: Texts,
    pick: Option<i32>,
)
    requires
        is_in(w, uid, u, h, r),
    ensures
        ({
            let (v, step) = session::processed(
                w,
                uid,
                ClientCommandModel::SelectOnlineChart { id },
                settings,
                texts,
                pick,
            );
            if r.host != Some(uid) {
                &&& v == w
                &&& step == StepModel::Reply(
                    Some(ServerCommandModel::SelectOnlineChart(Err("only host can do this"@))),
                )
            } else if r.phase is LocalChart {
                &&& step == StepModel::Fetch(Fetch::Chart { room: h, id, online: true })
                &&& only_room(w, v, h)
                &&& table::lookup(v.rooms, h) == Some(
                    RoomModel { local_chart: None, phase: Phase::SelectChart, ..r },
                )
                &&& last_sent(
                    v,
                    r,
                    ServerCommandModel::ChangeLocalChart { local: false, chart_id: Seq::empty() },
                )
            } else if r.phase is SelectChart {
                &&& v == w
                &&& step == StepModel::Fetch(Fetch::Chart { room: h, id, online: true })
            } else {
                &&& v == w
                &&& step == StepModel::Reply(
                    Some(ServerCommandModel::SelectOnlineChart(Err(texts.chart_select_not_now@))),
                )
            }
        }),
{
    reveal(session::online_choice);
    if r.host == Some(uid) && r.phase is LocalChart {
        let v = session::online_choice(w, uid, id, texts.chart_select_not_now@).0;
        lemma_others(w, v, h, RoomModel { local_chart: None, phase: Phase::SelectChart, ..r });
        assert(v.hub.out.take(w.hub.out.len() as int) =~= w.hub.out);
    }
}

/// What a player of a live room does on the screen is seen by those who watch the room, and by
/// nobody else, and recorded in the recorder of that room. Of a room that is not live nothing is.
pub proof fn law_touches(
    w: WorldModel,
    uid: i32,
    u: UserModel,
    h: u64,
    r: RoomModel,
    frames: Seq<TouchFrameModel>,
    m: replay::RecorderModel,
    other: i32,
    settings: Settings,
    texts: Texts,
    pick: Option<i32>,
)
    requires
        is_in(w, uid, u, h, r),
        table::lookup(w.replays, r.id) == Some(m),
    ensures
        ({
            let (v, step) = session::processed(
                w,
                uid,
                ClientCommandModel::Touches { frames },
                settings,
                texts,
                pick,
            );
            &&& step == StepModel::Reply(None)
            &&& v.rooms == w.rooms
            &&& v.hub.charts == w.hub.charts
            &&& !r.live ==> v == w
            &&& r.live ==> {
                &&& v.hub.out == w.hub.out.push(
                    EffectModel::Send {
                        to: r.monitors,
                        cmd: ServerCommandModel::Touches { player: uid, frames },
                    },
                )
                &&& table::lookup(v.replays, r.id) == Some(replay::with_frames(m, uid, frames))
                &&& table::lookup(v.hub.users, uid) == Some(
                    UserModel {
                        game_time: if frames.len() > 0 {
                            frames.last().time
                        } else {
                            u.game_time
                        },
                        ..u
                    },
                )
                &&& other != uid ==> table::lookup(v.hub.users, other) == table::lookup(
                    w.hub.users,
                    other,
                )
            }
        }),
{
    reveal(session::touched);
    let d = replay::with_frames(m, uid, frames);
    table::lemma_put_lookup(w.replays, r.id, d, r.id);
    if frames.len() > 0 {
        let k = UserModel { game_time: frames.last().time, ..u };
        table::lemma_put_lookup(w.hub.users, uid, k, uid);
        table::lemma_put_lookup(w.hub.users, uid, k, other);
    }
}

/// The notes that a player hits are counted for that player alone, on top of what they had hit
/// before, recorded in the recorder of the room, and seen by those who watch a live room.
pub proof fn law_judges(
    w: WorldModel,
    uid: i32,
    u: UserModel,
    h: u64,
    r: RoomModel,
    judges: Seq<JudgeEvent>,
    m: replay::RecorderModel,
    other: i32,
    settings: Settings,
    texts: Texts,
    pick: Option<i32>,
)
    requires
        is_in(w, uid, u, h, r),
        table::lookup(w.replays, r.id) == Some(m),
        judges.len() > 0,
    ensures
        ({
            let (v, step) = session::processed(
                w,
                uid,
                ClientCommandModel::Judges { judges },
                settings,
                texts,
                pick,
            );
            &&& step == StepModel::Reply(None)
            &&& v.hub.users == w.hub.users
            &&& v.hub.charts == w.hub.charts
            &&& other_rooms_same(w, v, h)
            &&& table::lookup(v.replays, r.id) == Some(replay::with_events(m, uid, judges))
            &&& table::lookup(v.rooms, h) matches Some(q) && {
                &&& q == RoomModel { stats: q.stats, events: q.events, ..r }
                &&& table::lookup(q.stats, uid) == Some(
                    stats::with_judgements(
                        match table::lookup(r.stats, uid) {
                            Some(t) => t,
                            None => stats::new_stats(uid, u.name),
                        },
                        judges,
                    ),
                )
                &&& other != uid ==> table::lookup(q.stats, other) == table::lookup(r.stats, other)
                &&& q.events.len() == r.events.len() + judges.len()
                &&& q.events.take(r.events.len() as int) == r.events
                &&& forall|i: int|
                    0 <= i < judges.len() ==> {
                        let k = #[trigger] q.events[r.events.len() + i];
                        &&& k.user_id == uid
                        &&& k.user_name == u.name
                        &&& k.time == judges[i].time
                        &&& k.line_id == judges[i].line_id
                        &&& k.note_id == judges[i].note_id
                    }
            }
            &&& r.live ==> v.hub.out.last() == (EffectModel::Send {
                to: r.monitors,
                cmd: ServerCommandModel::Judges { player: uid, judges },
            })
            &&& !r.live ==> v.hub.out.last() is Stats
            &&& v.hub.out[w.hub.out.len() as int] matches EffectModel::Stats { room, stats: told }
                && room == r.id && told.len() == table::lookup(v.rooms, h)->Some_0.stats.len()
                && forall|i: int|
                0 <= i < told.len() ==> #[trigger] told[i] == table::lookup(
                    v.rooms,
                    h,
                )->Some_0.stats[i].1
        }),
{
    reveal(session::judged);
    let v = session::judged(w, uid, judges);
    let s = room::notes_hit(world::scene_in(w, r), uid, u.name, judges);
    let d = replay::with_events(m, uid, judges);
    table::lemma_put_lookup(w.replays, r.id, d, r.id);
    lemma_others(w, v, h, s.room);
    let t = stats::with_judgements(room::player_stats(r, uid, u.name), judges);
    table::lemma_put_lookup(r.stats, uid, t, uid);
    table::lemma_put_lookup(r.stats, uid, t, other);
    assert(s.room.events.take(r.events.len() as int) =~= r.events);
}

/// A room is found by an id only if there is one that is listed under it, and then one is.
pub proof fn law_finding(rooms: Seq<(u64, RoomModel)>, id: Seq<char>)
    ensures
        match world::find_listed(rooms, id) {
            Some((h, r)) => r.listed && r.id == id && exists|i: int|
                0 <= i < rooms.len() && #[trigger] rooms[i] == (h, r),
            None => forall|i: int|
                0 <= i < rooms.len() ==> !((#[trigger] rooms[i]).1.listed && rooms[i].1.id == id),
        },
    decreases rooms.len(),
{
    if rooms.len() > 0 {
        if rooms[0].1.listed && rooms[0].1.id == id {
            assert(rooms[0] == (rooms[0].0, rooms[0].1));
        } else {
            let rest = rooms.skip(1);
            law_finding(rest, id);
            match world::find_listed(rest, id) {
                Some((h, r)) => {
                    let i = choose|i: int| 0 <= i < rest.len() && #[trigger] rest[i] == (h, r);
                    assert(rooms[i + 1] == (h, r));
                },
                None => {
                    assert forall|i: int| 0 <= i < rooms.len() implies !((#[trigger] rooms[i]).1.listed
                        && rooms[i].1.id == id) by {
                        if i > 0 {
                            assert(rest[i - 1] == rooms[i]);
                        }
                    }
                },
            }
        }
    }
}

/// Who is in no room cannot do anything in one, and is told so; nothing changes.
pub proof fn law_in_no_room(
    w: WorldModel,
    uid: i32,
    u: UserModel,
    cmd: ClientCommandModel,
    settings: Settings,
    texts: Texts,
    pick: Option<i32>,
)
    requires
        table::lookup(w.hub.users, uid) == Some(u),
        u.room is None,
        match cmd {
            ClientCommandModel::Ping => false,
            ClientCommandModel::Authenticate { .. } => false,
            ClientCommandModel::CreateRoom { .. } => false,
            ClientCommandModel::JoinRoom { .. } => false,
            ClientCommandModel::UploadChart { .. } => false,
            ClientCommandModel::DownloadChart { .. } => false,
            _ => true,
        },
    ensures
        ({
            let (v, step) = session::processed(w, uid, cmd, settings, texts, pick);
            let no = Err::<(), Seq<char>>("芙宁娜的房间已经关了"@);
            &&& v == w
            &&& step == StepModel::Reply(
                match cmd {
                    ClientCommandModel::Chat { .. } => Some(ServerCommandModel::Chat(no)),
                    ClientCommandModel::LeaveRoom => Some(ServerCommandModel::LeaveRoom(no)),
                    ClientCommandModel::LockRoom { .. } => Some(ServerCommandModel::LockRoom(no)),
                    ClientCommandModel::CycleRoom { .. } => Some(ServerCommandModel::CycleRoom(no)),
                    ClientCommandModel::SelectChart { .. } => Some(
                        ServerCommandModel::SelectChart(no),
                    ),
                    ClientCommandModel::RequestStart => Some(ServerCommandModel::RequestStart(no)),
                    ClientCommandModel::Ready => Some(ServerCommandModel::Ready(no)),
                    ClientCommandModel::CancelReady => Some(ServerCommandModel::CancelReady(no)),
                    ClientCommandModel::Played { .. } => Some(ServerCommandModel::Played(no)),
                    ClientCommandModel::Abort => Some(ServerCommandModel::Abort(no)),
                    ClientCommandModel::SelectLocalChart { .. } => Some(
                        ServerCommandModel::SelectLocalChart(no),
                    ),
                    ClientCommandModel::SelectOnlineChart { .. } => Some(
                        ServerCommandModel::SelectOnlineChart(no),
                    ),
                    ClientCommandModel::SendChart { .. } => Some(ServerCommandModel::SendChart(no)),
                    ClientCommandModel::DownloadReady => Some(
                        ServerCommandModel::DownloadReady(no),
                    ),
                    ClientCommandModel::CancelLocalChart => Some(
                        ServerCommandModel::CancelLocalChart(no),
                    ),
                    ClientCommandModel::CancelDownloadReady => Some(
                        ServerCommandModel::CancelDownloadReady(no),
                    ),
                    _ => None,
                },
            )
        }),
{
    reveal(session::said);
    reveal(session::touched);
    reveal(session::judged);
    reveal(session::room_left);
    reveal(session::locked);
    reveal(session::cycled);
    reveal(session::chart_choice);
    reveal(session::online_choice);
    reveal(session::start_requested);
    reveal(session::readied);
    reveal(session::ready_canceled);
    reveal(session::aborted);
    reveal(session::local_chosen);
    reveal(session::chart_sent);
    reveal(session::downloaded);
    reveal(session::local_canceled);
    reveal(session::download_canceled);
}

/// A sign of life is answered, and a second word about who one is is refused; neither changes
/// anything.
pub proof fn law_ping(
    w: WorldModel,
    uid: i32,
    token: Seq<char>,
    settings: Settings,
    texts: Texts,
    pick: Option<i32>,
)
    ensures
        session::processed(w, uid, ClientCommandModel::Ping, settings, texts, pick) == (
            w,
            StepModel::Reply(Some(ServerCommandModel::Pong)),
        ),
        session::processed(
            w,
            uid,
            ClientCommandModel::Authenticate { token },
            settings,
            texts,
            pick,
        ) == (
            w,
            StepModel::Reply(
                Some(ServerCommandModel::Authenticate(Err("repeated authenticate"@))),
            ),
        ),
{
}

/// A user who is in no room makes one where its id is free: they are its host and its only
/// player, and it is open, at choosing a chart, and recorded. Everybody else is where they were.
pub proof fn law_create_room(
    w: WorldModel,
    uid: i32,
    u: UserModel,
    id: Seq<char>,
    other: i32,
    elsewhere: Seq<char>,
    settings: Settings,
    texts: Texts,
    pick: Option<i32>,
)
    requires
        table::lookup(w.hub.users, uid) == Some(u),
        uid != -999,
        w.next_room < u64::MAX,
    ensures
        ({
            let (v, step) = session::processed(
                w,
                uid,
                ClientCommandModel::CreateRoom { id },
                settings,
                texts,
                pick,
            );
            let h = w.next_room;
            if u.room is Some {
                &&& v == w
                &&& step == StepModel::Reply(
                    Some(ServerCommandModel::CreateRoom(Err("already in room"@))),
                )
            } else if exists|i: int|
                0 <= i < w.rooms.len() && (#[trigger] w.rooms[i]).1.listed && w.rooms[i].1.id
                    == id {
                &&& v == w
                &&& step == StepModel::Reply(
                    Some(ServerCommandModel::CreateRoom(Err(texts.create_id_occupied@))),
                )
            } else {
                &&& step == StepModel::Reply(Some(ServerCommandModel::CreateRoom(Ok(()))))
                &&& table::lookup(v.hub.users, uid) == Some(UserModel { room: Some(h), ..u })
                &&& other != uid ==> table::lookup(v.hub.users, other) == table::lookup(
                    w.hub.users,
                    other,
                )
                &&& v.hub.charts == w.hub.charts
                &&& v.next_room == h + 1
                &&& other_rooms_same(w, v, h)
                &&& table::lookup(v.rooms, h) matches Some(r) && {
                    &&& r.id == id
                    &&& r.host == Some(uid)
                    &&& r.creator == Some(uid)
                    &&& r.users == seq![uid]
                    &&& r.monitors.len() == 0
                    &&& r.phase is SelectChart
                    &&& r.listed
                    &&& !r.locked
                    &&& !r.cycle
                    &&& !r.competition
                    &&& !r.uploaded
                    &&& r.chart is None
                    &&& r.local_chart is None
                    &&& r.stats.len() == 0
                    &&& r.events.len() == 0
                }
                &&& table::lookup(v.replays, id) matches Some(m) && {
                    &&& m.chart_id == 0
                    &&& !m.recording
                    &&& table::lookup(m.caches, uid) matches Some(c) && c.user_id == uid
                        && c.user_name == u.name && c.touch_frames.len() == 0
                        && c.judge_events.len() == 0
                }
                &&& elsewhere != id ==> table::lookup(v.replays, elsewhere) == table::lookup(
                    w.replays,
                    elsewhere,
                )
                &&& sent(
                    v.hub.out,
                    w.hub.out.len() as int + 1,
                    seq![uid],
                    ServerCommandModel::Message(
                        MessageModel::CreateRoom { user: uid, name: u.name },
                    ),
                )
                &&& v.hub.out.last() == (EffectModel::WatchersJoin { room: h, creator: uid })
            }
        }),
{
    reveal(session::room_created);
    law_finding(w.rooms, id);
    let free = !(exists|i: int|
        0 <= i < w.rooms.len() && (#[trigger] w.rooms[i]).1.listed && w.rooms[i].1.id == id);
    if u.room is None && free {
        assert(world::find_listed(w.rooms, id) is None);
        let v = session::room_created(w, uid, id, texts.create_id_occupied@).0;
        let h = w.next_room;
        let k = UserModel { room: Some(h), ..u };
        table::lemma_put_lookup(w.hub.users, uid, k, uid);
        table::lemma_put_lookup(w.hub.users, uid, k, other);
        lemma_others(w, v, h, room::new_room(id, Some(uid), Some(uid)));
        assert(seq![uid] + Seq::<i32>::empty() =~= seq![uid]);
        let e = Seq::<char>::empty();
        let a = replay::created(w.replays, id, 0, e);
        let b = replay::player_came(a, id, uid, u.name);
        replay::law_recorder_settings(w.replays, id, 0, e, false);
        let m = replay::new_recorder(id, 0, e);
        let n = replay::with_player(m, uid, u.name);
        replay::law_player_comes(m, uid, u.name, uid);
        table::lemma_put_lookup(w.replays, id, m, id);
        table::lemma_put_lookup(w.replays, id, m, elsewhere);
        table::lemma_put_lookup(a, id, n, id);
        table::lemma_put_lookup(a, id, n, elsewhere);
        let o = replay::with_player(n, replay::RECORDER_BOT_USER_ID, replay::recorder_name());
        replay::law_player_comes(n, replay::RECORDER_BOT_USER_ID, replay::recorder_name(), uid);
        table::lemma_put_lookup(b, id, o, id);
        table::lemma_put_lookup(b, id, o, elsewhere);
    }
}

/// What is known of people: of each of those who are known their number, their name and whether
/// they watch, in order.
pub proof fn law_infos(ids: Seq<i32>, users: Seq<(i32, UserModel)>)
    requires
        forall|i: int| 0 <= i < ids.len() ==> table::lookup(users, #[trigger] ids[i]) is Some,
    ensures
        room::infos(ids, users).len() == ids.len(),
        forall|i: int|
            0 <= i < ids.len() ==> {
                let k = #[trigger] room::infos(ids, users)[i];
                let u = table::lookup(users, ids[i])->Some_0;
                k.id == u.id && k.name == u.name && k.monitor == u.monitor
            },
    decreases ids.len(),
{
    if ids.len() > 0 {
        let front = ids.drop_last();
        assert forall|i: int| 0 <= i < front.len() implies table::lookup(
            users,
            #[trigger] front[i],
        ) is Some by {
            assert(front[i] == ids[i]);
        }
        law_infos(front, users);
        assert(ids[ids.len() - 1] == ids.last());
        assert forall|i: int| 0 <= i < ids.len() implies {
            let k = #[trigger] room::infos(ids, users)[i];
            let u = table::lookup(users, ids[i])->Some_0;
            k.id == u.id && k.name == u.name && k.monitor == u.monitor
        } by {
            if i < front.len() {
                assert(room::infos(ids, users)[i] == room::infos(front, users)[i]);
                assert(front[i] == ids[i]);
            }
        }
    }
}

/// A user who is in no room comes into one that is open, at choosing a chart and not full, as a
/// player or, where they may, as a watcher; everybody in it learns so, and they learn what it is
/// doing. Else they are told what is in the way, and nothing changes.
pub proof fn law_join_room(
    w: WorldModel,
    uid: i32,
    u: UserModel,
    h: u64,
    r: RoomModel,
    monitor: bool,
    other: i32,
    settings: Settings,
    texts: Texts,
    pick: Option<i32>,
)
    requires
        world::wf(w),
        order::fair(w),
        table::lookup(w.hub.users, uid) == Some(u),
        table::lookup(w.rooms, h) == Some(r),
        r.listed,
    ensures
        ({
            let (v, step) = session::processed(
                w,
                uid,
                ClientCommandModel::JoinRoom { id: r.id, monitor },
                settings,
                texts,
                pick,
            );
            let refused = if u.room is Some {
                Some("already in room"@)
            } else if r.locked {
                Some(texts.join_room_locked@)
            } else if !(r.phase is SelectChart) {
                Some(texts.join_game_ongoing@)
            } else if monitor && !settings.monitors@.contains(uid) {
                Some(texts.join_cant_monitor@)
            } else if !monitor && r.users.len() >= 2147483647 {
                Some(texts.join_room_full@)
            } else {
                None
            };
            match refused {
                Some(t) => v == w && step == StepModel::Reply(
                    Some(ServerCommandModel::JoinRoom(Err(t))),
                ),
                None => {
                    &&& other_rooms_same(w, v, h)
                    &&& table::lookup(v.rooms, h) == Some(
                        if monitor {
                            RoomModel { monitors: r.monitors.push(uid), live: true, ..r }
                        } else {
                            RoomModel { users: r.users.push(uid), ..r }
                        },
                    )
                    &&& table::lookup(v.hub.users, uid) == Some(
                        UserModel { room: Some(h), monitor, ..u },
                    )
                    &&& other != uid ==> table::lookup(v.hub.users, other) == table::lookup(
                        w.hub.users,
                        other,
                    )
                    &&& v.hub.charts == w.hub.charts
                    &&& monitor ==> v.replays == w.replays
                    &&& sent(
                        v.hub.out,
                        w.hub.out.len() as int,
                        if monitor {
                            r.users + r.monitors.push(uid)
                        } else {
                            r.users.push(uid) + r.monitors
                        },
                        ServerCommandModel::OnJoinRoom(
                            crate::command::UserInfoModel { id: uid, name: u.name, monitor },
                        ),
                    )
                    &&& step matches StepModel::Reply(Some(ServerCommandModel::JoinRoom(Ok(resp))))
                        && {
                        &&& resp.live == (r.live || monitor)
                        &&& resp.state == RoomState::SelectChart(
                            match r.chart {
                                Some(c) => Some(c.id),
                                None => None,
                            },
                        )
                        &&& resp.users == room::infos(
                            if monitor {
                                r.users + r.monitors.push(uid)
                            } else {
                                r.users.push(uid) + r.monitors
                            },
                            v.hub.users,
                        )
                    }
                },
            }
        }),
{
    reveal(session::room_joined);
    table::lemma_find(w.rooms, h);
    order::law_one_room_per_id(w, table::find(w.rooms, h));
    world::lemma_user_id(w.hub.users, uid);
    assert(world::find_listed(w.rooms, r.id) == Some((h, r)));
    if session::join_refusal(w, u, r.id, monitor, settings, texts) is None {
        let v = session::room_joined(w, uid, r.id, monitor, settings, texts).0;
        let s = session::join_scene(w, r, u, monitor, settings.web_port);
        lemma_others(w, v, h, s.room);
        let a = UserModel { monitor, ..u };
        let b = UserModel { monitor, room: Some(h), ..u };
        table::lemma_put_lookup(w.hub.users, uid, a, other);
        table::lemma_put_lookup(s.hub.users, uid, b, uid);
        table::lemma_put_lookup(s.hub.users, uid, b, other);
    }
}

/// A check of whether a game begins or ends moves nobody in or out of the room, and changes the
/// host only where a game is over in a room that takes turns.
pub proof fn law_check_moves_nobody(s: Scene)
    ensures
        ({
            let t = room::checked(s);
            &&& t.room.id == s.room.id
            &&& t.room.users == s.room.users
            &&& t.room.monitors == s.room.monitors
            &&& t.room.listed == s.room.listed
            &&& t.room.locked == s.room.locked
            &&& t.room.live == s.room.live
            &&& t.room.cycle == s.room.cycle
            &&& t.room.competition == s.room.competition
            &&& t.room.chart == s.room.chart
            &&& t.room.creator == s.room.creator
            &&& !(s.room.phase is Playing) || !s.room.cycle || s.room.competition ==> t.room.host
                == s.room.host
            &&& s.hub.out.len() <= t.hub.out.len()
            &&& t.hub.out.take(s.hub.out.len() as int) == s.hub.out
        }),
{
    let t = room::checked(s);
    assert(t.hub.out.take(s.hub.out.len() as int) =~= s.hub.out);
}

/// A player who leaves is no longer in the room; the other players and the watchers are, in the
/// order they were, and so is the host. Everybody who was there learns who left.
pub proof fn law_player_leaves(
    w: WorldModel,
    uid: i32,
    u: UserModel,
    h: u64,
    r: RoomModel,
    settings: Settings,
    texts: Texts,
    pick: Option<i32>,
)
    requires
        is_in(w, uid, u, h, r),
        r.listed,
        !u.monitor,
        r.host != Some(uid),
        u.id == uid,
    ensures
        ({
            let (v, step) = session::processed(
                w,
                uid,
                ClientCommandModel::LeaveRoom,
                settings,
                texts,
                pick,
            );
            &&& step == StepModel::Reply(Some(ServerCommandModel::LeaveRoom(Ok(()))))
            &&& other_rooms_same(w, v, h)
            &&& v.replays == w.replays
            &&& table::lookup(v.rooms, h) matches Some(q) && {
                &&& q.id == r.id
                &&& q.listed
                &&& q.users == r.users.filter(|x: i32| x != uid)
                &&& q.monitors == r.monitors
                &&& q.locked == r.locked
                &&& q.cycle == r.cycle
                &&& q.chart == r.chart
                &&& !(r.phase is Playing && r.cycle) ==> q.host == r.host
            }
            &&& table::lookup(v.hub.users, uid) matches Some(k) && k.room is None && k.id == u.id
                && k.name == u.name
            &&& sent(
                v.hub.out,
                w.hub.out.len() as int + 1,
                r.users + r.monitors,
                ServerCommandModel::Message(MessageModel::LeaveRoom { user: uid, name: u.name }),
            )
        }),
{
    reveal(session::room_left);
    law_dropped(r.users, uid);
    let s = world::scene_in(w, r);
    let g = room::gone(s, u);
    law_check_moves_nobody(g);
    let v = session::room_left(w, uid, pick).0;
    let c = room::checked(g);
    table::lemma_put_lookup(w.rooms, h, c.room, h);
    lemma_others(w, v, h, c.room);
    let k = UserModel { room: None, ..u };
    table::lemma_put_lookup(w.hub.users, uid, k, uid);
    lemma_check_keeps_users(g, uid);
    assert(g.hub.out[w.hub.out.len() as int + 1] == c.hub.out.take(g.hub.out.len() as int)[
    w.hub.out.len() as int + 1]);
}

/// A check of whether a game begins or ends changes of nobody more than the clock of their game.
proof fn lemma_check_keeps_users(s: Scene, id: i32)
    ensures
        match table::lookup(s.hub.users, id) {
            Some(u) => table::lookup(room::checked(s).hub.users, id) matches Some(k) && k
                == UserModel { game_time: k.game_time, ..u },
            None => table::lookup(room::checked(s).hub.users, id) is None,
        },
{
    law_clocks_set_back(s.hub.users, s.room.users, id);
}

/// A watcher who leaves is no longer among the watchers of the room; nobody else leaves, and the
/// host stays the host.
pub proof fn law_watcher_leaves(
    w: WorldModel,
    uid: i32,
    u: UserModel,
    h: u64,
    r: RoomModel,
    settings: Settings,
    texts: Texts,
    pick: Option<i32>,
)
    requires
        is_in(w, uid, u, h, r),
        r.listed,
        u.monitor,
        r.host != Some(uid),
        u.id == uid,
    ensures
        ({
            let (v, step) = session::processed(
                w,
                uid,
                ClientCommandModel::LeaveRoom,
                settings,
                texts,
                pick,
            );
            &&& step == StepModel::Reply(Some(ServerCommandModel::LeaveRoom(Ok(()))))
            &&& other_rooms_same(w, v, h)
            &&& table::lookup(v.rooms, h) matches Some(q) && {
                &&& q.id == r.id
                &&& q.listed
                &&& q.users == r.users
                &&& q.monitors == r.monitors.filter(|x: i32| x != uid)
                &&& !(r.phase is Playing && r.cycle) ==> q.host == r.host
            }
            &&& table::lookup(v.hub.users, uid) matches Some(k) && k.room is None
        }),
{
    reveal(session::room_left);
    law_dropped(r.monitors, uid);
    let g = room::gone(world::scene_in(w, r), u);
    law_check_moves_nobody(g);
    let v = session::room_left(w, uid, pick).0;
    table::lemma_put_lookup(w.rooms, h, room::checked(g).room, h);
    lemma_others(w, v, h, room::checked(g).room);
    table::lemma_put_lookup(w.hub.users, uid, UserModel { room: None, ..u }, uid);
    lemma_check_keeps_users(g, uid);
}

/// When the host leaves a room with other players, the one who was picked is the host, and is
/// told so; a game that was on is over for everybody.
pub proof fn law_host_leaves(
    w: WorldModel,
    uid: i32,
    u: UserModel,
    h: u64,
    r: RoomModel,
    next: i32,
    settings: Settings,
    texts: Texts,
)
    requires
        is_in(w, uid, u, h, r),
        r.listed,
        !u.monitor,
        r.host == Some(uid),
        !r.competition,
        u.id == uid,
    ensures
        ({
            let (v, step) = session::processed(
                w,
                uid,
                ClientCommandModel::LeaveRoom,
                settings,
                texts,
                Some(next),
            );
            &&& step == StepModel::Reply(Some(ServerCommandModel::LeaveRoom(Ok(()))))
            &&& other_rooms_same(w, v, h)
            &&& table::lookup(v.rooms, h) matches Some(q) && {
                &&& q.id == r.id
                &&& q.listed
                &&& q.host == Some(next)
                &&& q.users == r.users.filter(|x: i32| x != uid)
                &&& q.monitors == r.monitors
                &&& r.phase is Playing ==> q.phase == Phase::SelectChart && q.local_chart is None
            }
            &&& table::lookup(v.hub.users, uid) matches Some(k) && k.room is None
            &&& exists|n: int|
                sent(v.hub.out, n, seq![next], ServerCommandModel::ChangeHost(true))
        }),
{
    reveal(session::room_left);
    law_dropped(r.users, uid);
    let g = room::gone(world::scene_in(w, r), u);
    let b = room::game_broken_off(g);
    let c = room::crowned(b, next);
    law_check_moves_nobody(c);
    let v = session::room_left(w, uid, Some(next)).0;
    table::lemma_put_lookup(w.rooms, h, room::checked(c).room, h);
    lemma_others(w, v, h, room::checked(c).room);
    table::lemma_put_lookup(w.hub.users, uid, UserModel { room: None, ..u }, uid);
    lemma_check_keeps_users(c, uid);
    let n = c.hub.out.len() - 1;
    assert(room::checked(c).hub.out.take(c.hub.out.len() as int)[n] == c.hub.out[n]);
    assert(sent(v.hub.out, n, seq![next], ServerCommandModel::ChangeHost(true)));
}

/// When the host leaves and no player is left, the room can no longer be found.
pub proof fn law_last_player_leaves(
    w: WorldModel,
    uid: i32,
    u: UserModel,
    h: u64,
    r: RoomModel,
    settings: Settings,
    texts: Texts,
)
    requires
        is_in(w, uid, u, h, r),
        r.host == Some(uid),
        !r.competition,
        table::distinct(w.rooms),
        u.id == uid,
    ensures
        ({
            let (v, step) = session::processed(
                w,
                uid,
                ClientCommandModel::LeaveRoom,
                settings,
                texts,
                None,
            );
            &&& step == StepModel::Reply(Some(ServerCommandModel::LeaveRoom(Ok(()))))
            &&& table::lookup(v.rooms, h) matches Some(q) ==> !q.listed
            &&& table::lookup(v.hub.users, uid) matches Some(k) && k.room is None
        }),
{
    reveal(session::room_left);
    let g = room::gone(world::scene_in(w, r), u);
    let b = room::game_broken_off(g);
    table::lemma_put_lookup(w.hub.users, uid, UserModel { room: None, ..u }, uid);
    let t = world::with_scene(w, h, b);
    table::lemma_put_lookup(w.rooms, h, b.room, h);
    table::lemma_put_distinct(w.rooms, h, b.room);
    let q = RoomModel { listed: false, ..b.room };
    table::lemma_put_lookup(t.rooms, h, q, h);
    table::lemma_put_distinct(t.rooms, h, q);
    table::lemma_without_lookup(table::put(t.rooms, h, q), h, h);
}

/// While a game is on, the others go on when a player who is not the host leaves, as long as one
/// of them is not done.
pub proof fn law_leaving_ends_no_game(
    w: WorldModel,
    uid: i32,
    u: UserModel,
    h: u64,
    r: RoomModel,
    results: Map<i32, Record>,
    aborted: Set<i32>,
    i: int,
    settings: Settings,
    texts: Texts,
    pick: Option<i32>,
)
    requires
        is_in(w, uid, u, h, r),
        r.listed,
        !u.monitor,
        r.host != Some(uid),
        u.id == uid,
        r.phase == (Phase::Playing { results, aborted }),
        0 <= i < r.users.len(),
        r.users[i] != uid,
        !results.dom().contains(r.users[i]),
        !aborted.contains(r.users[i]),
    ensures
        ({
            let (v, step) = session::processed(
                w,
                uid,
                ClientCommandModel::LeaveRoom,
                settings,
                texts,
                pick,
            );
            table::lookup(v.rooms, h) matches Some(q) && q.phase == r.phase && q.host == r.host
        }),
{
    reveal(session::room_left);
    let g = room::gone(world::scene_in(w, r), u);
    lemma_still_there(r.users, uid, i);
    let k = choose|k: int| 0 <= k < g.room.users.len() && g.room.users[k] == r.users[i];
    law_game_goes_on(g, results, aborted, k);
    let v = session::room_left(w, uid, pick).0;
    table::lemma_put_lookup(w.rooms, h, g.room, h);
    lemma_others(w, v, h, g.room);
}

/// Who does not leave is still in the list.
proof fn lemma_still_there(ids: Seq<i32>, id: i32, i: int)
    requires
        0 <= i < ids.len(),
        ids[i] != id,
    ensures
        exists|k: int| 0 <= k < room::dropped(ids, id).len() && room::dropped(ids, id)[k] == ids[i],
    decreases ids.len(),
{
    let front = ids.drop_last();
    let all = room::dropped(ids, id);
    if i < front.len() {
        lemma_still_there(front, id, i);
        let k = choose|k: int|
            0 <= k < room::dropped(front, id).len() && room::dropped(front, id)[k] == front[i];
        assert(all[k] == ids[i]);
    } else {
        assert(all[all.len() - 1] == ids[i]);
    }
}

/// Whether a room is as it was.
pub open spec fn room_same(w: WorldModel, v: WorldModel, k: u64) -> bool {
    table::lookup(v.rooms, k) == table::lookup(w.rooms, k)
}

/// Whether a user is not in a room.
pub open spec fn not_in(w: WorldModel, uid: i32, k: u64) -> bool {
    table::lookup(w.hub.users, uid) matches Some(u) ==> u.room != Some(k)
}

/// A change to one room is none to another.
proof fn lemma_put_apart(w: WorldModel, k: u64)
    ensures
        forall|h: u64, q: RoomModel|
            h != k ==> table::lookup(#[trigger] table::put(w.rooms, h, q), k) == table::lookup(
                w.rooms,
                k,
            ),
{
    assert forall|h: u64, q: RoomModel| h != k implies table::lookup(
        #[trigger] table::put(w.rooms, h, q),
        k,
    ) == table::lookup(w.rooms, k) by {
        table::lemma_put_lookup(w.rooms, h, q, k);
    }
}

/// Talking, locking and choosing change no other room.
proof fn lemma_apart_settings(
    w: WorldModel,
    uid: i32,
    k: u64,
    content: Seq<char>,
    on: bool,
    id: i32,
)
    requires
        not_in(w, uid, k),
    ensures
        room_same(w, session::said(w, uid, content).0, k),
        room_same(w, session::locked(w, uid, on).0, k),
        room_same(w, session::cycled(w, uid, on).0, k),
        room_same(w, session::online_choice(w, uid, id, content).0, k),
{
    reveal(session::said);
    reveal(session::locked);
    reveal(session::cycled);
    reveal(session::online_choice);
    lemma_put_apart(w, k);
}

/// Starting, being ready and giving up change no other room.
proof fn lemma_apart_games(w: WorldModel, uid: i32, k: u64, none: Seq<char>)
    requires
        not_in(w, uid, k),
    ensures
        room_same(w, session::start_requested(w, uid, none).0, k),
        room_same(w, session::readied(w, uid).0, k),
        room_same(w, session::ready_canceled(w, uid).0, k),
        room_same(w, session::aborted(w, uid).0, k),
{
    reveal(session::start_requested);
    reveal(session::readied);
    reveal(session::ready_canceled);
    reveal(session::aborted);
    lemma_put_apart(w, k);
}

/// Sharing a chart changes no other room.
proof fn lemma_apart_sharing(
    w: WorldModel,
    uid: i32,
    k: u64,
    id: Seq<char>,
    name: Seq<char>,
    data: Seq<u8>,
    settings: Settings,
)
    requires
        not_in(w, uid, k),
    ensures
        room_same(w, session::local_chosen(w, uid, id, name).0, k),
        room_same(w, session::chart_sent(w, uid, settings, name).0, k),
        room_same(w, session::downloaded(w, uid, name).0, k),
        room_same(w, session::uploaded(w, uid, id, data), k),
        room_same(w, session::local_canceled(w, uid).0, k),
        room_same(w, session::download_canceled(w, uid).0, k),
{
    reveal(session::local_chosen);
    reveal(session::chart_sent);
    reveal(session::downloaded);
    reveal(session::uploaded);
    reveal(session::local_canceled);
    reveal(session::download_canceled);
    lemma_put_apart(w, k);
}

/// Playing changes no other room.
proof fn lemma_apart_playing(
    w: WorldModel,
    uid: i32,
    k: u64,
    frames: Seq<TouchFrameModel>,
    judges: Seq<JudgeEvent>,
)
    requires
        not_in(w, uid, k),
    ensures
        room_same(w, session::touched(w, uid, frames), k),
        room_same(w, session::judged(w, uid, judges), k),
{
    reveal(session::touched);
    reveal(session::judged);
    lemma_put_apart(w, k);
}

/// Leaving a room changes no other room.
proof fn lemma_apart_leaving(w: WorldModel, uid: i32, k: u64, pick: Option<i32>)
    requires
        table::distinct(w.rooms),
        not_in(w, uid, k),
    ensures
        room_same(w, session::room_left(w, uid, pick).0, k),
{
    reveal(session::room_left);
    if let Some((h, r)) = world::room_of(w, uid) {
        let u = world::user_of(w, uid)->Some_0;
        let (s, drop) = room::left(world::scene_in(w, r), u, pick);
        let t = world::with_scene(w, h, s);
        table::lemma_put_distinct(w.rooms, h, s.room);
        table::lemma_put_lookup(w.rooms, h, s.room, k);
        table::lemma_put_lookup(w.rooms, h, s.room, h);
        let q = RoomModel { listed: false, ..s.room };
        table::lemma_put_distinct(t.rooms, h, q);
        table::lemma_put_lookup(t.rooms, h, q, k);
        table::lemma_without_lookup(t.rooms, h, k);
        table::lemma_without_lookup(table::put(t.rooms, h, q), h, k);
    }
}

/// What a user does reaches nobody's room but their own: every other room is as it was, but for
/// one that they come into or make.
pub proof fn law_other_rooms_untouched(
    w: WorldModel,
    uid: i32,
    cmd: ClientCommandModel,
    k: u64,
    settings: Settings,
    texts: Texts,
    pick: Option<i32>,
)
    requires
        table::distinct(w.rooms),
        table::lookup(w.hub.users, uid) matches Some(u) ==> u.room != Some(k),
        !(cmd is JoinRoom),
        cmd is CreateRoom ==> k != w.next_room,
    ensures
        table::lookup(session::processed(w, uid, cmd, settings, texts, pick).0.rooms, k)
            == table::lookup(w.rooms, k),
{
    match cmd {
        ClientCommandModel::Chat { message } => {
            lemma_apart_settings(w, uid, k, message, true, 0);
        },
        ClientCommandModel::Touches { frames } => {
            lemma_apart_playing(w, uid, k, frames, Seq::empty());
        },
        ClientCommandModel::Judges { judges } => {
            lemma_apart_playing(w, uid, k, Seq::empty(), judges);
        },
        ClientCommandModel::CreateRoom { id } => {
            reveal(session::room_created);
            lemma_put_apart(w, k);
        },
        ClientCommandModel::LeaveRoom => {
            lemma_apart_leaving(w, uid, k, pick);
        },
        ClientCommandModel::LockRoom { lock } => {
            lemma_apart_settings(w, uid, k, Seq::empty(), lock, 0);
        },
        ClientCommandModel::CycleRoom { cycle } => {
            lemma_apart_settings(w, uid, k, Seq::empty(), cycle, 0);
        },
        ClientCommandModel::SelectOnlineChart { id } => {
            lemma_apart_settings(w, uid, k, texts.chart_select_not_now@, true, id);
        },
        ClientCommandModel::SelectLocalChart { id, name } => {
            lemma_apart_sharing(w, uid, k, id, name, Seq::empty(), settings);
        },
        ClientCommandModel::SendChart { .. } => {
            lemma_apart_sharing(
                w,
                uid,
                k,
                Seq::empty(),
                texts.start_no_chart_selected@,
                Seq::empty(),
                settings,
            );
        },
        ClientCommandModel::DownloadReady => {
            lemma_apart_sharing(
                w,
                uid,
                k,
                Seq::empty(),
                texts.chart_not_uploaded_yet@,
                Seq::empty(),
                settings,
            );
        },
        ClientCommandModel::UploadChart { id, data } => {
            lemma_apart_sharing(w, uid, k, id, Seq::empty(), data, settings);
        },
        _ => {
            lemma_apart_games(w, uid, k, texts.start_no_chart_selected@);
            lemma_apart_sharing(w, uid, k, Seq::empty(), Seq::empty(), Seq::empty(), settings);
        },
    }
}

/// Whom a room calls by which name: the server by its own, whoever is in the room by theirs, and
/// everybody else by their number.
pub proof fn law_names_shown(
    r: RoomModel,
    users: Seq<(i32, UserModel)>,
    uid: i32,
    u: UserModel,
    i: int,
)
    ensures
        room::display_name(r, users, 0) == "系统"@,
        uid != 0 && 0 <= i < r.users.len() && r.users[i] == uid && table::lookup(users, uid)
            == Some(u) ==> room::display_name(r, users, uid) == u.name,
        uid != 0 && 0 <= i < r.monitors.len() && r.monitors[i] == uid && table::lookup(users, uid)
            == Some(u) ==> room::display_name(r, users, uid) == u.name,
        uid != 0 && !r.users.contains(uid) && !r.monitors.contains(uid) ==> room::display_name(
            r,
            users,
            uid,
        ) == "用户#"@ + text::dec(uid as int),
        uid != 0 && table::lookup(users, uid) is None ==> room::display_name(r, users, uid)
            == "用户#"@ + text::dec(uid as int),
{
    let all = r.users + r.monitors;
    if 0 <= i < r.users.len() && r.users[i] == uid {
        assert(all[i] == uid);
    }
    if 0 <= i < r.monitors.len() && r.monitors[i] == uid {
        assert(all[r.users.len() + i] == uid);
    }
    if all.contains(uid) {
        let k = choose|k: int| 0 <= k < all.len() && all[k] == uid;
        if k < r.users.len() {
            assert(r.users[k] == uid);
        } else {
            assert(r.monitors[k - r.users.len()] == uid);
        }
    }
}

/// What is logged of a player who does something: what they did, and their name.
pub proof fn law_deeds_logged(
    r: RoomModel,
    users: Seq<(i32, UserModel)>,
    user: i32,
    u: UserModel,
    i: int,
    content: Seq<char>,
)
    requires
        user != 0,
        0 <= i < r.users.len(),
        r.users[i] == user,
        table::lookup(users, user) == Some(u),
    ensures
        room::log_line(r, users, MessageModel::Chat { user, content }) == LogModel::Plain(
            "聊天："@ + u.name + " — "@ + content,
        ),
        room::log_line(r, users, MessageModel::NewHost { user }) == LogModel::Plain(
            "新房主："@ + u.name,
        ),
        room::log_line(r, users, MessageModel::GameStart { user }) == LogModel::Plain(
            "请求开始："@ + u.name + " 发起"@,
        ),
        room::log_line(r, users, MessageModel::Ready { user }) == LogModel::Plain(
            "准备："@ + u.name,
        ),
        room::log_line(r, users, MessageModel::CancelReady { user }) == LogModel::Plain(
            "取消准备："@ + u.name,
        ),
        room::log_line(r, users, MessageModel::CancelGame { user }) == LogModel::Plain(
            "取消比赛："@ + u.name,
        ),
        room::log_line(r, users, MessageModel::Abort { user }) == LogModel::Plain(
            "中止："@ + u.name,
        ),
        room::log_line(r, users, MessageModel::SendChart { user }) == LogModel::Plain(
            "开始分享谱面："@ + u.name,
        ),
        room::log_line(r, users, MessageModel::DownloadReady { user }) == LogModel::Plain(
            "谱面下载完成："@ + u.name,
        ),
{
    law_names_shown(r, users, user, u, i);
}

/// What is logged of charts and results, by the player who chose them or made them.
pub proof fn law_charts_logged(
    r: RoomModel,
    users: Seq<(i32, UserModel)>,
    user: i32,
    u: UserModel,
    i: int,
    name: Seq<char>,
    n: i32,
    id: Seq<char>,
    accuracy: u32,
)
    requires
        user != 0,
        0 <= i < r.users.len(),
        r.users[i] == user,
        table::lookup(users, user) == Some(u),
    ensures
        room::log_line(r, users, MessageModel::SelectChart { user, name, id: n })
            == LogModel::Plain(
            "选择谱面："@ + name + " 由 "@ + u.name + " (id="@ + text::dec(n as int) + ")"@,
        ),
        room::log_line(r, users, MessageModel::SelectLocalChart { user, name, id })
            == LogModel::Plain("选择本地谱面："@ + name + " 由 "@ + u.name + " (id="@ + id + ")"@),
        room::log_line(
            r,
            users,
            MessageModel::Played { user, score: n, accuracy, full_combo: true },
        ) == (LogModel::Played {
            head: "完成："@ + u.name + " 分数="@ + text::dec(n as int) + " 准确率="@,
            accuracy,
            tail: "% 全连="@ + "true"@ + " "@,
        }),
        room::log_line(
            r,
            users,
            MessageModel::Played { user, score: n, accuracy, full_combo: false },
        ) == (LogModel::Played {
            head: "完成："@ + u.name + " 分数="@ + text::dec(n as int) + " 准确率="@,
            accuracy,
            tail: "% 全连="@ + "false"@ + " "@,
        }),
{
    law_names_shown(r, users, user, u, i);
}

/// What is logged of who comes and goes, of games that begin and end, and of the switches of a
/// room.
pub proof fn law_events_logged(
    r: RoomModel,
    users: Seq<(i32, UserModel)>,
    user: i32,
    name: Seq<char>,
)
    ensures
        room::log_line(r, users, MessageModel::CreateRoom { user, name }) == LogModel::Plain(
            "创建房间："@ + name + " ("@ + text::dec(user as int) + ")"@,
        ),
        room::log_line(r, users, MessageModel::JoinRoom { user, name }) == LogModel::Plain(
            "加入房间："@ + name + " ("@ + text::dec(user as int) + ")"@,
        ),
        room::log_line(r, users, MessageModel::LeaveRoom { user, name }) == LogModel::Plain(
            "离开房间："@ + name + " ("@ + text::dec(user as int) + ")"@,
        ),
        room::log_line(r, users, MessageModel::StartPlaying) == LogModel::Plain("开始游戏"@),
        room::log_line(r, users, MessageModel::GameEnd) == LogModel::Plain("游戏结束"@),
        room::log_line(r, users, MessageModel::LockRoom { lock: true }) == LogModel::Plain(
            "房间锁定："@ + "true"@,
        ),
        room::log_line(r, users, MessageModel::LockRoom { lock: false }) == LogModel::Plain(
            "房间锁定："@ + "false"@,
        ),
        room::log_line(r, users, MessageModel::CycleRoom { cycle: true }) == LogModel::Plain(
            "循环模式："@ + "true"@,
        ),
        room::log_line(r, users, MessageModel::CycleRoom { cycle: false }) == LogModel::Plain(
            "循环模式："@ + "false"@,
        ),
{
}

/// Whatever is announced in a room is logged under its name, and then sent to everybody in it;
/// nothing else changes.
pub proof fn law_said_and_logged(s: Scene, m: MessageModel)
    ensures
        ({
            let t = room::announced(s, m);
            let n = s.hub.out.len() as int;
            &&& t.room == s.room
            &&& t.hub.users == s.hub.users
            &&& t.hub.charts == s.hub.charts
            &&& t.hub.out.len() == n + 2
            &&& t.hub.out.take(n) == s.hub.out
            &&& t.hub.out[n] matches EffectModel::Log { room, text } && room == s.room.id && text
                == room::log_line(s.room, s.hub.users, m)
            &&& sent(t.hub.out, n + 1, s.room.users + s.room.monitors, ServerCommandModel::Message(m))
        }),
{
}

/// A new room is live, its recorder waits beside its maker, and the list of rooms is to be told
/// anew before its watchers come.
pub proof fn law_creation_told(
    w: WorldModel,
    uid: i32,
    u: UserModel,
    id: Seq<char>,
    settings: Settings,
    texts: Texts,
    pick: Option<i32>,
)
    requires
        table::lookup(w.hub.users, uid) == Some(u),
        u.room is None,
        w.next_room < u64::MAX,
        forall|i: int|
            0 <= i < w.rooms.len() ==> !((#[trigger] w.rooms[i]).1.listed && w.rooms[i].1.id == id),
    ensures
        ({
            let v = session::processed(
                w,
                uid,
                ClientCommandModel::CreateRoom { id },
                settings,
                texts,
                pick,
            ).0;
            let n = w.hub.out.len() as int;
            &&& v.hub.out.len() == n + 4
            &&& v.hub.out.take(n) == w.hub.out
            &&& v.hub.out[n] matches EffectModel::Log { room, .. } && room == id
            &&& v.hub.out[n + 2] is RoomsChanged
            &&& table::lookup(v.rooms, w.next_room) matches Some(r) && r.live
            &&& table::lookup(v.replays, id) matches Some(m) && table::lookup(m.caches, -999i32)
                matches Some(c) && c.user_id == -999 && (uid != -999 ==> c.user_name
                == "回放录制器"@)
        }),
{
    reveal(session::room_created);
    law_finding(w.rooms, id);
    assert(world::find_listed(w.rooms, id) is None);
    let v = session::room_created(w, uid, id, texts.create_id_occupied@).0;
    lemma_others(w, v, w.next_room, room::new_room(id, Some(uid), Some(uid)));
    assert(v.hub.out.take(w.hub.out.len() as int) =~= w.hub.out);
    let e = Seq::<char>::empty();
    let a = replay::created(w.replays, id, 0, e);
    let b = replay::player_came(a, id, uid, u.name);
    let m = replay::new_recorder(id, 0, e);
    let n = replay::with_player(m, uid, u.name);
    let bot = replay::RECORDER_BOT_USER_ID;
    let o = replay::with_player(n, bot, replay::recorder_name());
    table::lemma_put_lookup(w.replays, id, m, id);
    table::lemma_put_lookup(a, id, n, id);
    table::lemma_put_lookup(b, id, o, id);
    replay::law_player_comes(m, uid, u.name, bot);
    replay::law_player_comes(m, uid, u.name, uid);
    replay::law_player_comes(n, bot, replay::recorder_name(), bot);
}

/// Whoever comes into a room is welcomed by the server, by name, before the room is told of them;
/// the lists of rooms and of sessions are to be told anew. A player is recorded from then on.
pub proof fn law_arrival_told(
    w: WorldModel,
    uid: i32,
    u: UserModel,
    h: u64,
    r: RoomModel,
    monitor: bool,
    settings: Settings,
    texts: Texts,
    pick: Option<i32>,
)
    requires
        world::wf(w),
        order::fair(w),
        table::lookup(w.hub.users, uid) == Some(u),
        table::lookup(w.rooms, h) == Some(r),
        r.listed,
        u.room is None,
        !r.locked,
        r.phase is SelectChart,
        monitor ==> settings.monitors@.contains(uid),
        r.users.len() < 2147483647,
    ensures
        ({
            let v = session::processed(
                w,
                uid,
                ClientCommandModel::JoinRoom { id: r.id, monitor },
                settings,
                texts,
                pick,
            ).0;
            let n = w.hub.out.len() as int;
            let all = if monitor {
                r.users + r.monitors.push(uid)
            } else {
                r.users.push(uid) + r.monitors
            };
            &&& v.hub.out.len() == n + 6
            &&& v.hub.out.take(n) == w.hub.out
            &&& settings.web_port is None ==> sent(
                v.hub.out,
                n + 1,
                all,
                ServerCommandModel::Message(
                    MessageModel::Chat {
                        user: 0,
                        content: "欢迎 "@ + u.name + " 加入房间！"@ + ""@,
                    },
                ),
            )
            &&& settings.web_port is Some ==> sent(
                v.hub.out,
                n + 1,
                all,
                ServerCommandModel::Message(
                    MessageModel::Chat {
                        user: 0,
                        content: "欢迎 "@ + u.name + " 加入房间！"@
                            + "你可以使用【云崽】芙卡洛斯的 #phira 指令来查看该服务器的房间列表。"@,
                    },
                ),
            )
            &&& v.hub.out[n + 2] matches EffectModel::Log { room, .. } && room == r.id
            &&& sent(
                v.hub.out,
                n + 3,
                all,
                ServerCommandModel::Message(MessageModel::JoinRoom { user: uid, name: u.name }),
            )
            &&& v.hub.out[n + 4] is RoomsChanged
            &&& v.hub.out[n + 5] is SessionsChanged
            &&& v.next_room == w.next_room
            &&& !monitor ==> (table::lookup(w.replays, r.id) matches Some(m) ==> table::lookup(
                v.replays,
                r.id,
            ) matches Some(k) && table::lookup(k.caches, uid) matches Some(c) && c.user_id == uid
                && c.user_name == u.name)
        }),
{
    reveal(session::room_joined);
    table::lemma_find(w.rooms, h);
    order::law_one_room_per_id(w, table::find(w.rooms, h));
    world::lemma_user_id(w.hub.users, uid);
    assert(world::find_listed(w.rooms, r.id) == Some((h, r)));
    assert(session::join_refusal(w, u, r.id, monitor, settings, texts) is None);
    let v = session::room_joined(w, uid, r.id, monitor, settings, texts).0;
    assert(v.hub.out.take(w.hub.out.len() as int) =~= w.hub.out);
    if !monitor {
        if let Some(m) = table::lookup(w.replays, r.id) {
            let k = replay::with_player(m, uid, u.name);
            table::lemma_put_lookup(w.replays, r.id, k, r.id);
            replay::law_player_comes(m, uid, u.name, uid);
        }
    }
}

/// When somebody has left a room, the lists of rooms and of sessions are to be told anew.
pub proof fn law_departure_told(
    w: WorldModel,
    uid: i32,
    u: UserModel,
    h: u64,
    r: RoomModel,
    settings: Settings,
    texts: Texts,
    pick: Option<i32>,
)
    requires
        is_in(w, uid, u, h, r),
    ensures
        ({
            let v = session::processed(
                w,
                uid,
                ClientCommandModel::LeaveRoom,
                settings,
                texts,
                pick,
            ).0;
            let n = v.hub.out.len() as int;
            &&& n >= 2
            &&& v.hub.out[n - 2] is RoomsChanged
            &&& v.hub.out[n - 1] is SessionsChanged
        }),
{
    reveal(session::room_left);
}

/// Who is left is who was there, but for the one who left.
proof fn lemma_who_is_left(ids: Seq<i32>, id: i32, x: i32)
    requires
        room::dropped(ids, id).contains(x),
    ensures
        x != id,
        ids.contains(x),
{
    upkeep::lemma_dropped(ids, id);
    let left = room::dropped(ids, id);
    let k = choose|k: int| 0 <= k < left.len() && left[k] == x;
    assert(ids.contains(left[k]));
}

/// Someone who is not among others has no place among them.
proof fn lemma_no_place(ids: Seq<i32>, id: i32)
    requires
        !ids.contains(id),
    ensures
        room::place_of(ids, id) == ids.len(),
    decreases ids.len(),
{
    if ids.len() > 0 {
        assert(ids[0] != id);
        let rest = ids.skip(1);
        if rest.contains(id) {
            let k = choose|k: int| 0 <= k < rest.len() && rest[k] == id;
            assert(ids[k + 1] == id);
        }
        lemma_no_place(rest, id);
    }
}

/// In a room that takes turns and has no host among its players, the first of them has the next
/// turn.
pub proof fn law_first_turn(s: Scene, results: Map<i32, Record>, aborted: Set<i32>)
    requires
        s.room.phase == (Phase::Playing { results, aborted }),
        forall|i: int|
            0 <= i < s.room.users.len() ==> results.dom().contains(#[trigger] s.room.users[i])
                || aborted.contains(s.room.users[i]),
        s.room.cycle,
        !s.room.competition,
        s.room.users.len() > 0,
        s.room.host matches Some(x) ==> !s.room.users.contains(x),
    ensures
        room::checked(s).room.host == Some(s.room.users[0]),
{
    if let Some(x) = s.room.host {
        lemma_no_place(s.room.users, x);
    }
}

/// After a game of a competition that takes turns, the system is announced as the host; where no
/// turns are taken, no host is announced.
pub proof fn law_system_hosts(s: Scene, results: Map<i32, Record>, aborted: Set<i32>)
    requires
        s.room.phase == (Phase::Playing { results, aborted }),
        forall|i: int|
            0 <= i < s.room.users.len() ==> results.dom().contains(#[trigger] s.room.users[i])
                || aborted.contains(s.room.users[i]),
    ensures
        ({
            let t = room::checked(s);
            let n = s.hub.out.len() as int;
            &&& !s.room.cycle ==> t.hub.out.len() == n + 3
            &&& s.room.cycle && s.room.competition ==> t.hub.out.len() == n + 5 && sent(
                t.hub.out,
                n + 3,
                s.room.users + s.room.monitors,
                ServerCommandModel::Message(MessageModel::NewHost { user: 0 }),
            )
        }),
{
}

/// When the only one who was not ready leaves, be it the host or another player, the game begins
/// for those who stay.
pub proof fn law_leaving_lets_begin(
    w: WorldModel,
    uid: i32,
    u: UserModel,
    h: u64,
    r: RoomModel,
    started: Set<i32>,
    next: i32,
    settings: Settings,
    texts: Texts,
)
    requires
        is_in(w, uid, u, h, r),
        r.listed,
        !u.monitor,
        u.id == uid,
        !r.competition,
        r.phase == (Phase::WaitForReady { started }),
        forall|x: int|
            0 <= x < r.users.len() && r.users[x] != uid ==> started.contains(#[trigger] r.users[x]),
        forall|x: int| 0 <= x < r.monitors.len() ==> started.contains(#[trigger] r.monitors[x]),
    ensures
        ({
            let v = session::processed(
                w,
                uid,
                ClientCommandModel::LeaveRoom,
                settings,
                texts,
                Some(next),
            ).0;
            table::lookup(v.rooms, h) matches Some(q) && q.phase == (Phase::Playing {
                results: Map::empty(),
                aborted: Set::empty(),
            })
        }),
{
    reveal(session::room_left);
    let g = room::gone(world::scene_in(w, r), u);
    let b = room::game_broken_off(g);
    let c = room::crowned(b, next);
    let s = if r.host == Some(uid) {
        c
    } else {
        g
    };
    let all = room::members(s.room);
    assert forall|i: int| 0 <= i < all.len() implies started.contains(#[trigger] all[i]) by {
        if i < s.room.users.len() {
            assert(s.room.users.contains(all[i]));
            lemma_who_is_left(r.users, uid, all[i]);
            let k = choose|k: int| 0 <= k < r.users.len() && r.users[k] == all[i];
            assert(started.contains(r.users[k]));
        } else {
            assert(started.contains(r.monitors[i - s.room.users.len()]));
        }
    }
    assert(room::all_ready(s.room, started));
    let q = room::checked(s).room;
    table::lemma_put_lookup(w.rooms, h, q, h);
}

/// When the only one who was still playing leaves, and is not the host, the game is over.
pub proof fn law_leaving_ends_game(
    w: WorldModel,
    uid: i32,
    u: UserModel,
    h: u64,
    r: RoomModel,
    results: Map<i32, Record>,
    aborted: Set<i32>,
    settings: Settings,
    texts: Texts,
    pick: Option<i32>,
)
    requires
        is_in(w, uid, u, h, r),
        r.listed,
        !u.monitor,
        u.id == uid,
        r.host != Some(uid),
        r.phase == (Phase::Playing { results, aborted }),
        forall|x: int|
            0 <= x < r.users.len() && r.users[x] != uid ==> results.dom().contains(
                #[trigger] r.users[x],
            ) || aborted.contains(r.users[x]),
    ensures
        ({
            let v = session::processed(
                w,
                uid,
                ClientCommandModel::LeaveRoom,
                settings,
                texts,
                pick,
            ).0;
            table::lookup(v.rooms, h) matches Some(q) && q.phase is SelectChart
        }),
{
    reveal(session::room_left);
    let s = room::gone(world::scene_in(w, r), u);
    assert forall|i: int| 0 <= i < s.room.users.len() implies results.dom().contains(
        #[trigger] s.room.users[i],
    ) || aborted.contains(s.room.users[i]) by {
        assert(s.room.users.contains(s.room.users[i]));
        lemma_who_is_left(r.users, uid, s.room.users[i]);
        let k = choose|k: int| 0 <= k < r.users.len() && r.users[k] == s.room.users[i];
        assert(results.dom().contains(r.users[k]) || aborted.contains(r.users[k]));
    }
    let q = room::checked(s).room;
    table::lemma_put_lookup(w.rooms, h, q, h);
}

/// When the host of a competition leaves, the room stays, and the system is announced as its host.
pub proof fn law_competition_host_leaves(
    w: WorldModel,
    uid: i32,
    u: UserModel,
    h: u64,
    r: RoomModel,
    settings: Settings,
    texts: Texts,
    pick: Option<i32>,
)
    requires
        is_in(w, uid, u, h, r),
        r.listed,
        r.host == Some(uid),
        r.competition,
        u.id == uid,
    ensures
        ({
            let v = session::processed(
                w,
                uid,
                ClientCommandModel::LeaveRoom,
                settings,
                texts,
                pick,
            ).0;
            let stay = if u.monitor {
                r.users + r.monitors.filter(|x: i32| x != uid)
            } else {
                r.users.filter(|x: i32| x != uid) + r.monitors
            };
            let n = w.hub.out.len() + (if r.phase is Playing {
                4int
            } else {
                3int
            });
            &&& table::lookup(v.rooms, h) matches Some(q) && q.listed && q.id == r.id && q.host
                == r.host
            &&& v.hub.out[n] matches EffectModel::Send { to, cmd } && to == stay && cmd
                == ServerCommandModel::Message(MessageModel::NewHost { user: 0 })
        }),
{
    reveal(session::room_left);
    law_dropped(r.users, uid);
    law_dropped(r.monitors, uid);
    let b = room::game_broken_off(room::gone(world::scene_in(w, r), u));
    let c = room::announced(b, MessageModel::NewHost { user: 0 });
    law_check_moves_nobody(c);
    let q = room::checked(c).room;
    table::lemma_put_lookup(w.rooms, h, q, h);
    let v = session::room_left(w, uid, pick).0;
    let n = c.hub.out.len() - 1;
    assert(room::checked(c).hub.out.take(c.hub.out.len() as int)[n] == c.hub.out[n]);
    let stay = if u.monitor {
        r.users + r.monitors.filter(|x: i32| x != uid)
    } else {
        r.users.filter(|x: i32| x != uid) + r.monitors
    };
    assert(room::members(b.room) == stay);
    assert(v.hub.out[n] == c.hub.out[n]);
    assert(table::lookup(v.rooms, h) == Some(q));
}

/// A room that can be found, or that somebody is still in, is kept; one that is neither is gone.
/// The others stay as they are.
pub proof fn law_rooms_kept(w: WorldModel, h: u64, r: RoomModel, k: u64, i: int)
    requires
        table::distinct(w.rooms),
        table::lookup(w.rooms, h) == Some(r),
    ensures
        r.listed ==> world::swept(w, h) == w,
        0 <= i < w.hub.users.len() && w.hub.users[i].1.room == Some(h) ==> world::swept(w, h) == w,
        !r.listed && (forall|j: int|
            0 <= j < w.hub.users.len() ==> (#[trigger] w.hub.users[j]).1.room != Some(h))
            ==> table::lookup(world::swept(w, h).rooms, h) is None,
        k != h ==> table::lookup(world::swept(w, h).rooms, k) == table::lookup(w.rooms, k),
        world::swept(w, h).hub == w.hub,
        world::swept(w, h).replays == w.replays,
{
    table::lemma_without_lookup(w.rooms, h, h);
    table::lemma_without_lookup(w.rooms, h, k);
}

/// What is done for those who are known: everything, but that no room is made once their numbers
/// are used up.
pub proof fn law_done_for_all(w: WorldModel, uid: i32, cmd: ClientCommandModel)
    requires
        !(cmd is Judges),
        !(cmd is LeaveRoom),
        !(cmd is SendChart),
        !(cmd is Abort),
    ensures
        session::accepts(w, uid, cmd) <==> table::lookup(w.hub.users, uid) is Some && (
        cmd is CreateRoom ==> w.next_room < u64::MAX),
{
}

/// Notes are counted as long as nothing that is counted could become too large: as long as the
/// score leaves room for as many points as the notes can bring, and everything else for the notes.
pub proof fn law_notes_accepted(
    w: WorldModel,
    uid: i32,
    u: UserModel,
    h: u64,
    r: RoomModel,
    judges: Seq<JudgeEvent>,
)
    requires
        is_in(w, uid, u, h, r),
        match table::lookup(r.stats, uid) {
            Some(t) => {
                &&& t.score + 100 * judges.len() <= u32::MAX
                &&& t.perfect + t.good + t.bad + t.miss + judges.len() <= u32::MAX
                &&& t.hold_perfect + judges.len() <= u32::MAX
                &&& t.hold_good + judges.len() <= u32::MAX
                &&& 0 <= t.current_combo
                &&& t.current_combo + judges.len() <= u32::MAX
            },
            None => 100 * judges.len() <= u32::MAX,
        },
    ensures
        session::accepts(w, uid, ClientCommandModel::Judges { judges }),
{
    stats::law_fits(room::player_stats(r, uid, u.name), judges);
}

/// Anybody may leave, give up or share a chart, but where a game in a room that takes turns would
/// be over with no player to have the next turn.
pub proof fn law_may_go(
    w: WorldModel,
    uid: i32,
    u: UserModel,
    h: u64,
    r: RoomModel,
    i: int,
    addr: Seq<char>,
    port: u16,
)
    requires
        is_in(w, uid, u, h, r),
        u.id == uid,
    ensures
        !(r.phase is Playing) || !r.cycle || r.competition || r.host == Some(uid) || (0 <= i
            < r.users.len() && r.users[i] != uid) ==> session::accepts(
            w,
            uid,
            ClientCommandModel::LeaveRoom,
        ),
        r.phase is Playing && r.cycle && !r.competition && r.host != Some(uid) && !u.monitor && (
        forall|k: int| 0 <= k < r.users.len() ==> #[trigger] r.users[k] == uid)
            ==> !session::accepts(w, uid, ClientCommandModel::LeaveRoom),
        !(r.phase is Playing) || !r.cycle || r.competition || r.users.len() > 0 ==> session::accepts(
            w,
            uid,
            ClientCommandModel::Abort,
        ) && session::accepts(w, uid, ClientCommandModel::SendChart { addr, port }),
{
    if 0 <= i < r.users.len() && r.users[i] != uid {
        lemma_one_stays(r.users, uid, i);
    }
    if forall|k: int| 0 <= k < r.users.len() ==> #[trigger] r.users[k] == uid {
        upkeep::lemma_dropped(r.users, uid);
        let left = room::dropped(r.users, uid);
        if left.len() > 0 {
            assert(r.users.contains(left[0]));
            let k = choose|k: int| 0 <= k < r.users.len() && r.users[k] == left[0];
            assert(r.users[k] == uid);
        }
    }
}

/// Someone else than the one who leaves is left.
proof fn lemma_one_stays(ids: Seq<i32>, id: i32, i: int)
    requires
        0 <= i < ids.len(),
        ids[i] != id,
    ensures
        room::dropped(ids, id).len() > 0,
    decreases ids.len(),
{
    if i < ids.len() - 1 {
        lemma_one_stays(ids.drop_last(), id, i);
    }
}

} // verus!
