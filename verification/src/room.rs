//! The rules of a room: who is in it, who is its host, and how a game comes and goes.
use crate::bin::BinaryData;
use crate::command::{
    ClientRoomState, ClientRoomStateModel, JudgeEvent, Message, MessageModel, RoomId, RoomState,
    ServerCommand, ServerCommandModel, UserInfo, UserInfoModel,
};
use crate::hub;
use crate::hub::{
    Chart, ChartModel, Effect, EffectModel, Hub, HubModel, LogModel, LogText, Record, User,
    UserModel,
};
use crate::replay;
use crate::replay::RECORDER_BOT_USER_ID;
use crate::stats;
use crate::stats::{JudgeEventWrapper, PlayerJudgementStats, StatsModel, WrapperModel};
use crate::table;
use crate::table::Table;
use crate::text;
use std::collections::{HashMap, HashSet};
use vstd::prelude::*;
use vstd::string::*;

verus! {

broadcast use {table::group_views, vstd::std_specs::hash::group_hash_axioms};

/// The largest number of players in a room.
pub const ROOM_MAX_USERS: usize = 2147483647;

/// What a room is doing.
#[derive(Debug)]
pub enum InternalRoomState {
    SelectChart,
    /// A chart of the host is being shared; `started` are the players who have got it.
    LocalChart { started: HashSet<i32> },
    /// A game is about to begin; `started` are the people who are ready.
    WaitForReady { started: HashSet<i32> },
    /// A game is on.
    Playing { results: HashMap<i32, Record>, aborted: HashSet<i32> },
}

/// What an [`InternalRoomState`] means.
#[verifier::ext_equal]
pub enum Phase {
    SelectChart,
    LocalChart { started: Set<i32> },
    WaitForReady { started: Set<i32> },
    Playing { results: Map<i32, Record>, aborted: Set<i32> },
}

impl View for InternalRoomState {
    type V = Phase;

    open spec fn view(&self) -> Phase {
        match *self {
            InternalRoomState::SelectChart => Phase::SelectChart,
            InternalRoomState::LocalChart { started } => Phase::LocalChart { started: started@ },
            InternalRoomState::WaitForReady { started } => Phase::WaitForReady {
                started: started@,
            },
            InternalRoomState::Playing { results, aborted } => Phase::Playing {
                results: results@,
                aborted: aborted@,
            },
        }
    }
}

/// What clients learn of what a room is doing.
pub open spec fn shown(p: Phase, chart: Option<i32>) -> RoomState {
    match p {
        Phase::SelectChart => RoomState::SelectChart(chart),
        Phase::LocalChart { .. } => RoomState::LocalChart,
        Phase::WaitForReady { .. } => RoomState::WaitingForReady,
        Phase::Playing { .. } => RoomState::Playing,
    }
}

/// A game that has just begun.
pub open spec fn fresh_game() -> Phase {
    Phase::Playing { results: Map::empty(), aborted: Set::empty() }
}

impl InternalRoomState {
    /// What clients learn of what a room is doing.
    pub fn to_client(&self, chart: Option<i32>) -> (res: RoomState)
        ensures
            res == shown(self@, chart),
    {
        match self {
            InternalRoomState::SelectChart => RoomState::SelectChart(chart),
            InternalRoomState::LocalChart { .. } => RoomState::LocalChart,
            InternalRoomState::WaitForReady { .. } => RoomState::WaitingForReady,
            InternalRoomState::Playing { .. } => RoomState::Playing,
        }
    }

    /// A game that has just begun.
    pub fn fresh_game() -> (res: InternalRoomState)
        ensures
            res@ == fresh_game(),
    {
        let res = InternalRoomState::Playing { results: HashMap::new(), aborted: HashSet::new() };
        assert(res@ =~= fresh_game());
        res
    }
}

/// A room.
#[derive(Debug)]
pub struct Room {
    pub id: RoomId,
    pub host: Option<i32>,
    pub state: InternalRoomState,
    pub live: bool,
    pub locked: bool,
    pub cycle: bool,
    pub users: Vec<i32>,
    pub monitors: Vec<i32>,
    pub chart: Option<Chart>,
    /// The chart of the host that is being shared: its id and its name.
    pub local_chart: Option<(String, String)>,
    /// Whether the host has left that chart with the server.
    pub chart_uploaded: bool,
    pub is_competition: bool,
    pub judgement_stats: Table<i32, PlayerJudgementStats>,
    pub judge_events: Vec<JudgeEventWrapper>,
    pub creator_id: Option<i32>,
    /// Whether the room can be found by its id.
    pub listed: bool,
}

/// What a [`Room`] means.
#[verifier::ext_equal]
pub struct RoomModel {
    pub id: Seq<char>,
    pub host: Option<i32>,
    pub phase: Phase,
    pub live: bool,
    pub locked: bool,
    pub cycle: bool,
    pub users: Seq<i32>,
    pub monitors: Seq<i32>,
    pub chart: Option<ChartModel>,
    pub local_chart: Option<(Seq<char>, Seq<char>)>,
    pub uploaded: bool,
    pub competition: bool,
    pub stats: Seq<(i32, StatsModel)>,
    pub events: Seq<WrapperModel>,
    pub creator: Option<i32>,
    pub listed: bool,
}

/// The view of an optional chart.
pub open spec fn chart_view(c: Option<Chart>) -> Option<ChartModel> {
    match c {
        Some(c) => Some(c@),
        None => None,
    }
}

/// The view of an optional shared chart.
pub open spec fn local_view(c: Option<(String, String)>) -> Option<(Seq<char>, Seq<char>)> {
    match c {
        Some(c) => Some((c.0@, c.1@)),
        None => None,
    }
}

impl View for Room {
    type V = RoomModel;

    open spec fn view(&self) -> RoomModel {
        RoomModel {
            id: self.id@,
            host: self.host,
            phase: self.state@,
            live: self.live,
            locked: self.locked,
            cycle: self.cycle,
            users: self.users@,
            monitors: self.monitors@,
            chart: chart_view(self.chart),
            local_chart: local_view(self.local_chart),
            uploaded: self.chart_uploaded,
            competition: self.is_competition,
            stats: table::views(self.judgement_stats@),
            events: replay::list_views(self.judge_events@),
            creator: self.creator_id,
            listed: self.listed,
        }
    }
}

/// A room and everything that its rules may change.
#[verifier::ext_equal]
pub struct Scene {
    pub room: RoomModel,
    pub hub: HubModel,
}

/// A new room with its host in it, if it has one.
pub open spec fn new_room(id: Seq<char>, host: Option<i32>, creator: Option<i32>) -> RoomModel {
    RoomModel {
        id,
        host,
        phase: Phase::SelectChart,
        live: true,
        locked: false,
        cycle: false,
        users: match host {
            Some(h) => seq![h],
            None => Seq::empty(),
        },
        monitors: Seq::empty(),
        chart: None,
        local_chart: None,
        uploaded: false,
        competition: false,
        stats: Seq::empty(),
        events: Seq::empty(),
        creator,
        listed: true,
    }
}

/// Everybody in a room: the players and then the watchers.
pub open spec fn members(r: RoomModel) -> Seq<i32> {
    r.users + r.monitors
}

/// The name of someone in a room; the system has the id 0.
pub open spec fn member_name(r: RoomModel, users: Seq<(i32, UserModel)>, uid: i32) -> Option<
    Seq<char>,
> {
    if uid == 0 {
        Some("系统"@)
    } else if members(r).contains(uid) {
        match table::lookup(users, uid) {
            Some(u) => Some(u.name),
            None => None,
        }
    } else {
        None
    }
}

/// The name of someone in a room, or their number.
pub open spec fn display_name(r: RoomModel, users: Seq<(i32, UserModel)>, uid: i32) -> Seq<char> {
    match member_name(r, users, uid) {
        Some(name) => name,
        None => "用户#"@ + text::dec(uid as int),
    }
}

/// The line of the log for a message.
pub open spec fn log_line(r: RoomModel, users: Seq<(i32, UserModel)>, m: MessageModel) -> LogModel {
    match m {
        MessageModel::Chat { user, content } => LogModel::Plain(
            "聊天："@ + display_name(r, users, user) + " — "@ + content,
        ),
        MessageModel::CreateRoom { user, name } => LogModel::Plain(
            "创建房间："@ + name + " ("@ + text::dec(user as int) + ")"@,
        ),
        MessageModel::JoinRoom { user, name } => LogModel::Plain(
            "加入房间："@ + name + " ("@ + text::dec(user as int) + ")"@,
        ),
        MessageModel::LeaveRoom { user, name } => LogModel::Plain(
            "离开房间："@ + name + " ("@ + text::dec(user as int) + ")"@,
        ),
        MessageModel::NewHost { user } => LogModel::Plain(
            "新房主："@ + display_name(r, users, user),
        ),
        MessageModel::SelectChart { user, name, id } => LogModel::Plain(
            "选择谱面："@ + name + " 由 "@ + display_name(r, users, user) + " (id="@ + text::dec(
                id as int,
            ) + ")"@,
        ),
        MessageModel::GameStart { user } => LogModel::Plain(
            "请求开始："@ + display_name(r, users, user) + " 发起"@,
        ),
        MessageModel::Ready { user } => LogModel::Plain(
            "准备："@ + display_name(r, users, user),
        ),
        MessageModel::CancelReady { user } => LogModel::Plain(
            "取消准备："@ + display_name(r, users, user),
        ),
        MessageModel::CancelGame { user } => LogModel::Plain(
            "取消比赛："@ + display_name(r, users, user),
        ),
        MessageModel::StartPlaying => LogModel::Plain("开始游戏"@),
        MessageModel::Played { user, score, accuracy, full_combo } => LogModel::Played {
            head: "完成："@ + display_name(r, users, user) + " 分数="@ + text::dec(score as int)
                + " 准确率="@,
            accuracy,
            tail: "% 全连="@ + text::truth(full_combo) + " "@,
        },
        MessageModel::GameEnd => LogModel::Plain("游戏结束"@),
        MessageModel::Abort { user } => LogModel::Plain(
            "中止："@ + display_name(r, users, user),
        ),
        MessageModel::LockRoom { lock } => LogModel::Plain("房间锁定："@ + text::truth(lock)),
        MessageModel::CycleRoom { cycle } => LogModel::Plain("循环模式："@ + text::truth(cycle)),
        MessageModel::SelectLocalChart { user, name, id } => LogModel::Plain(
            "选择本地谱面："@ + name + " 由 "@ + display_name(r, users, user) + " (id="@ + id + ")"@,
        ),
        MessageModel::SendChart { user } => LogModel::Plain(
            "开始分享谱面："@ + display_name(r, users, user),
        ),
        MessageModel::DownloadReady { user } => LogModel::Plain(
            "谱面下载完成："@ + display_name(r, users, user),
        ),
    }
}

/// A command for everybody in the room.
pub open spec fn broadcast_to(s: Scene, cmd: ServerCommandModel) -> Scene {
    Scene {
        hub: hub::emitted(s.hub, EffectModel::Send { to: members(s.room), cmd }),
        ..s
    }
}

/// A message for everybody in the room, and its line in the log.
pub open spec fn announced(s: Scene, m: MessageModel) -> Scene {
    broadcast_to(
        Scene {
            hub: hub::emitted(
                s.hub,
                EffectModel::Log { room: s.room.id, text: log_line(s.room, s.hub.users, m) },
            ),
            ..s
        },
        ServerCommandModel::Message(m),
    )
}

/// What clients learn of what the room is doing.
pub open spec fn room_shown(r: RoomModel) -> RoomState {
    shown(
        r.phase,
        match r.chart {
            Some(c) => Some(c.id),
            None => None,
        },
    )
}

/// Everybody in the room learns what it is doing.
pub open spec fn state_changed(s: Scene) -> Scene {
    broadcast_to(s, ServerCommandModel::ChangeState(room_shown(s.room)))
}

/// The totals of the room are dropped.
pub open spec fn stats_reset(s: Scene) -> Scene {
    Scene {
        room: RoomModel { stats: Seq::empty(), events: Seq::empty(), ..s.room },
        hub: hub::emitted(s.hub, EffectModel::Stats { room: s.room.id, stats: Seq::empty() }),
    }
}

/// The times of the players' games are set back.
pub open spec fn times_reset(s: Scene) -> Scene {
    Scene {
        hub: HubModel { users: hub::times_reset(s.hub.users, s.room.users), ..s.hub },
        ..s
    }
}

/// A game begins.
pub open spec fn game_started(s: Scene) -> Scene {
    let t = times_reset(announced(stats_reset(s), MessageModel::StartPlaying));
    state_changed(Scene { room: RoomModel { phase: fresh_game(), ..t.room }, ..t })
}

/// Whether a player need not have got the shared chart: the host, the recorder, a watcher.
pub open spec fn exempt(host: i32, users: Seq<(i32, UserModel)>, uid: i32) -> bool {
    uid == host || uid == RECORDER_BOT_USER_ID || (match table::lookup(users, uid) {
        Some(u) => u.monitor,
        None => false,
    })
}

/// Whether every player who needs the shared chart has got it.
pub open spec fn all_have_chart(s: Scene, started: Set<i32>) -> bool {
    s.room.uploaded && match s.room.host {
        Some(host) => forall|i: int|
            0 <= i < s.room.users.len() ==> exempt(host, s.hub.users, #[trigger] s.room.users[i])
                || started.contains(s.room.users[i]),
        None => false,
    }
}

/// Whether everybody in the room is ready.
pub open spec fn all_ready(r: RoomModel, started: Set<i32>) -> bool {
    forall|i: int| 0 <= i < members(r).len() ==> started.contains(#[trigger] members(r)[i])
}

/// Whether every player is done with the game.
pub open spec fn all_done(r: RoomModel, results: Map<i32, Record>, aborted: Set<i32>) -> bool {
    forall|i: int|
        0 <= i < r.users.len() ==> results.dom().contains(#[trigger] r.users[i])
            || aborted.contains(r.users[i])
}

/// The players of the shared chart have all got it: the host learns it, the server drops
/// its copy, and the game begins.
pub open spec fn chart_game_started(s: Scene) -> Scene {
    let hub = match s.room.host {
        Some(host) => hub::told(
            match s.room.local_chart {
                Some((id, _)) => HubModel { charts: table::without(s.hub.charts, id), ..s.hub },
                None => s.hub,
            },
            host,
            ServerCommandModel::HostReady,
        ),
        None => s.hub,
    };
    game_started(Scene { room: RoomModel { uploaded: false, ..s.room }, hub })
}

/// The place of a player among the players, or their number if they are none of them.
pub open spec fn place_of(ids: Seq<i32>, id: i32) -> int
    decreases ids.len(),
{
    if ids.len() == 0 {
        0
    } else if ids[0] == id {
        0
    } else {
        1 + place_of(ids.skip(1), id)
    }
}

/// The player after the host, in the order of the players and round again; the first one
/// if the host is none of them.
pub open spec fn next_host(users: Seq<i32>, host: Option<i32>) -> i32 {
    match host {
        Some(h) => if place_of(users, h) < users.len() {
            users[(place_of(users, h) + 1) % (users.len() as int)]
        } else {
            users[0]
        },
        None => users[0],
    }
}

/// The next player becomes the host.
pub open spec fn host_passed(s: Scene) -> Scene {
    let new_host = next_host(s.room.users, s.room.host);
    let t = announced(
        Scene { room: RoomModel { host: Some(new_host), ..s.room }, ..s },
        MessageModel::NewHost { user: new_host },
    );
    let hub = match s.room.host {
        Some(old_host) => hub::told(t.hub, old_host, ServerCommandModel::ChangeHost(false)),
        None => t.hub,
    };
    Scene { hub: hub::told(hub, new_host, ServerCommandModel::ChangeHost(true)), ..t }
}

/// A game ends: back to choosing a chart, with the next host if the room takes turns.
pub open spec fn game_ended(s: Scene) -> Scene {
    let t = announced(s, MessageModel::GameEnd);
    let u = Scene { room: RoomModel { phase: Phase::SelectChart, ..t.room }, ..t };
    state_changed(
        if u.room.cycle {
            if u.room.competition {
                announced(u, MessageModel::NewHost { user: 0 })
            } else {
                host_passed(u)
            }
        } else {
            u
        },
    )
}

/// What follows when everybody may be ready, or done.
pub open spec fn checked(s: Scene) -> Scene {
    match s.room.phase {
        Phase::SelectChart => s,
        Phase::LocalChart { started } => if all_have_chart(s, started) {
            chart_game_started(s)
        } else {
            s
        },
        Phase::WaitForReady { started } => if all_ready(s.room, started) {
            game_started(s)
        } else {
            s
        },
        Phase::Playing { results, aborted } => if all_done(s.room, results, aborted) {
            game_ended(s)
        } else {
            s
        },
    }
}

/// A game without players in a room that takes turns: nobody is there to be the host.
pub open spec fn no_successor(r: RoomModel) -> bool {
    r.phase is Playing && r.users.len() == 0 && r.cycle && !r.competition
}

/// A list without an id.
pub open spec fn dropped(ids: Seq<i32>, id: i32) -> Seq<i32>
    decreases ids.len(),
{
    if ids.len() == 0 {
        ids
    } else {
        let front = dropped(ids.drop_last(), id);
        if ids.last() == id {
            front
        } else {
            front.push(ids.last())
        }
    }
}

/// Someone has gone out of the room, and the others have heard of it.
pub open spec fn gone(s: Scene, u: UserModel) -> Scene {
    let t = announced(s, MessageModel::LeaveRoom { user: u.id, name: u.name });
    Scene {
        room: if u.monitor {
            RoomModel { monitors: dropped(t.room.monitors, u.id), ..t.room }
        } else {
            RoomModel { users: dropped(t.room.users, u.id), ..t.room }
        },
        hub: hub::user_set(t.hub, u.id, UserModel { room: None, ..u }),
    }
}

/// The host has gone out: a game that is on is over.
pub open spec fn game_broken_off(s: Scene) -> Scene {
    if s.room.phase is Playing {
        state_changed(
            Scene {
                room: RoomModel { local_chart: None, phase: Phase::SelectChart, ..s.room },
                ..s
            },
        )
    } else {
        s
    }
}

/// Someone becomes the host.
pub open spec fn crowned(s: Scene, pick: i32) -> Scene {
    let t = announced(
        Scene { room: RoomModel { host: Some(pick), ..s.room }, ..s },
        MessageModel::NewHost { user: pick },
    );
    Scene { hub: hub::told(t.hub, pick, ServerCommandModel::ChangeHost(true)), ..t }
}

/// The players who may become the host when someone leaves.
pub open spec fn successors(r: RoomModel, u: UserModel) -> Seq<i32> {
    if u.monitor {
        r.users
    } else {
        dropped(r.users, u.id)
    }
}

/// Someone leaves the room; `pick` becomes the host if they were. Also, whether the room is
/// to be dropped.
pub open spec fn left(s: Scene, u: UserModel, pick: Option<i32>) -> (Scene, bool) {
    let t = gone(s, u);
    if s.room.host == Some(u.id) {
        let b = game_broken_off(t);
        if b.room.competition {
            (checked(announced(b, MessageModel::NewHost { user: 0 })), false)
        } else {
            match pick {
                Some(p) => (checked(crowned(b, p)), false),
                None => (b, true),
            }
        }
    } else {
        (checked(t), false)
    }
}

/// Whether a choice among some players is one: none where there are none.
pub open spec fn valid_pick(pick: Option<i32>, from: Seq<i32>) -> bool {
    match pick {
        Some(p) => from.contains(p),
        None => from.len() == 0,
    }
}

/// Whether someone can leave: not as the last player of a game in a room that takes turns.
pub open spec fn can_leave(r: RoomModel, u: UserModel) -> bool {
    r.host == Some(u.id) || !(r.phase is Playing && successors(r, u).len() == 0 && r.cycle
        && !r.competition)
}

/// A member comes into a room: a watcher always, a player while there is room.
pub open spec fn added(r: RoomModel, uid: i32, monitor: bool) -> (RoomModel, bool) {
    if monitor {
        (RoomModel { monitors: r.monitors.push(uid), ..r }, true)
    } else if r.users.len() >= ROOM_MAX_USERS {
        (r, false)
    } else {
        (RoomModel { users: r.users.push(uid), ..r }, true)
    }
}

/// The totals of a player of the room.
pub open spec fn player_stats(r: RoomModel, uid: i32, name: Seq<char>) -> StatsModel {
    match table::lookup(r.stats, uid) {
        Some(t) => t,
        None => stats::new_stats(uid, name),
    }
}

/// The totals of all players of the room.
pub open spec fn all_stats(r: RoomModel) -> Seq<StatsModel> {
    Seq::new(r.stats.len(), |i: int| r.stats[i].1)
}

/// A player of the room hits notes: they are counted and kept, and the totals are published.
pub open spec fn notes_hit(s: Scene, uid: i32, name: Seq<char>, events: Seq<JudgeEvent>) -> Scene {
    if events.len() == 0 {
        s
    } else {
        let room = RoomModel {
            stats: table::put(
                s.room.stats,
                uid,
                stats::with_judgements(player_stats(s.room, uid, name), events),
            ),
            events: s.room.events + Seq::new(
                events.len(),
                |i: int| stats::wrapped(uid, name, events[i]),
            ),
            ..s.room
        };
        Scene {
            room,
            hub: hub::emitted(
                s.hub,
                EffectModel::Stats { room: s.room.id, stats: all_stats(room) },
            ),
        }
    }
}

/// Whether someone is ready for the game that is about to begin.
pub open spec fn is_ready(r: RoomModel, uid: i32) -> bool {
    r.phase matches Phase::WaitForReady { started } && started.contains(uid)
}

/// What is known of the members of a list.
pub open spec fn infos(ids: Seq<i32>, users: Seq<(i32, UserModel)>) -> Seq<UserInfoModel>
    decreases ids.len(),
{
    if ids.len() == 0 {
        Seq::empty()
    } else {
        let front = infos(ids.drop_last(), users);
        match table::lookup(users, ids.last()) {
            Some(u) => front.push(hub::info(u)),
            None => front,
        }
    }
}

/// What is known of some people, each under their id.
pub open spec fn info_table(s: Seq<UserInfoModel>) -> Seq<(i32, UserInfoModel)>
    decreases s.len(),
{
    if s.len() == 0 {
        Seq::empty()
    } else {
        table::put(info_table(s.drop_last()), s.last().id, s.last())
    }
}

/// The room as one of its members sees it.
pub open spec fn client_view(s: Scene, uid: i32) -> ClientRoomStateModel {
    ClientRoomStateModel {
        id: s.room.id,
        state: room_shown(s.room),
        live: s.room.live,
        locked: s.room.locked,
        cycle: s.room.cycle,
        is_host: s.room.host == Some(uid),
        is_ready: is_ready(s.room, uid),
        users: info_table(infos(members(s.room), s.hub.users)),
    }
}

/// The scene of a room and its surroundings.
pub open spec fn scene(room: Room, hub: Hub) -> Scene {
    Scene { room: room@, hub: hub@ }
}

/// `SliceRandom::choose` of `rand` gives one of the elements, or none of no elements. Which
/// one is up to chance.
#[verifier::external_body]
pub(crate) fn choose_id(ids: &[i32]) -> (res: Option<i32>)
    ensures
        valid_pick(res, ids@),
{
    rand::seq::SliceRandom::choose(ids, &mut rand::thread_rng()).copied()
}

/// The place of an id in a list, or the length of the list.
fn position(ids: &Vec<i32>, id: i32) -> (res: usize)
    ensures
        res == place_of(ids@, id),
        res <= ids.len(),
{
    let mut i: usize = 0;
    assert(ids@.skip(0) =~= ids@);
    while i < ids.len()
        invariant
            i <= ids.len(),
            place_of(ids@, id) == i + place_of(ids@.skip(i as int), id),
        decreases ids.len() - i,
    {
        let ghost here = ids@.skip(i as int);
        if ids[i] == id {
            assert(here[0] == id);
            return i;
        }
        assert(here.skip(1) =~= ids@.skip(i + 1));
        i += 1;
    }
    i
}

/// A list without an id.
pub(crate) fn without_id(ids: &Vec<i32>, id: i32) -> (res: Vec<i32>)
    ensures
        res@ == dropped(ids@, id),
{
    let mut res: Vec<i32> = Vec::new();
    let mut i: usize = 0;
    assert(ids@.take(0) =~= Seq::empty());
    while i < ids.len()
        invariant
            i <= ids.len(),
            res@ == dropped(ids@.take(i as int), id),
        decreases ids.len() - i,
    {
        assert(ids@.take(i + 1).drop_last() =~= ids@.take(i as int));
        if ids[i] != id {
            res.push(ids[i]);
        }
        i += 1;
    }
    assert(ids@.take(i as int) =~= ids@);
    res
}

/// A copy of a list of ids.
pub fn copy_ids(ids: &Vec<i32>) -> (res: Vec<i32>)
    ensures
        res@ == ids@,
{
    let mut res: Vec<i32> = Vec::new();
    let mut i: usize = 0;
    while i < ids.len()
        invariant
            i <= ids.len(),
            res@ =~= ids@.take(i as int),
        decreases ids.len() - i,
    {
        res.push(ids[i]);
        i += 1;
    }
    assert(res@ =~= ids@);
    res
}

/// Texts one after the other.
pub fn join3(a: &str, b: &str, c: &str) -> (res: String)
    ensures
        res@ == a@ + b@ + c@,
{
    let mut s: String = a.to_owned();
    s.append(b);
    s.append(c);
    s
}

/// Texts one after the other.
pub fn join4(a: &str, b: &str, c: &str, d: &str) -> (res: String)
    ensures
        res@ == a@ + b@ + c@ + d@,
{
    let mut s: String = join3(a, b, c);
    s.append(d);
    s
}

/// Texts one after the other.
pub fn join5(a: &str, b: &str, c: &str, d: &str, e: &str) -> (res: String)
    ensures
        res@ == a@ + b@ + c@ + d@ + e@,
{
    let mut s: String = join4(a, b, c, d);
    s.append(e);
    s
}

/// Texts one after the other.
pub fn join7(a: &str, b: &str, c: &str, d: &str, e: &str, f: &str, g: &str) -> (res: String)
    ensures
        res@ == a@ + b@ + c@ + d@ + e@ + f@ + g@,
{
    let mut s: String = join5(a, b, c, d, e);
    s.append(f);
    s.append(g);
    s
}

/// Texts one after the other.
pub fn join2(a: &str, b: &str) -> (res: String)
    ensures
        res@ == a@ + b@,
{
    let mut s: String = a.to_owned();
    s.append(b);
    s
}

impl Room {
    /// A new room with its host in it, if it has one.
    pub fn new(id: RoomId, host: Option<i32>, creator_id: Option<i32>) -> (res: Room)
        ensures
            res@ == new_room(id@, host, creator_id),
    {
        let mut users: Vec<i32> = Vec::new();
        if let Some(h) = host {
            users.push(h);
        }
        let res = Room {
            id,
            host,
            state: InternalRoomState::SelectChart,
            live: true,
            locked: false,
            cycle: false,
            users,
            monitors: Vec::new(),
            chart: None,
            local_chart: None,
            chart_uploaded: false,
            is_competition: false,
            judgement_stats: Table::new(),
            judge_events: Vec::new(),
            creator_id,
            listed: true,
        };
        assert(res@ =~= new_room(id@, host, creator_id));
        res
    }

    /// Everybody in the room: the players and then the watchers.
    pub fn members(&self) -> (res: Vec<i32>)
        ensures
            res@ == members(self@),
    {
        let mut res: Vec<i32> = copy_ids(&self.users);
        let mut more: Vec<i32> = copy_ids(&self.monitors);
        res.append(&mut more);
        assert(res@ =~= members(self@));
        res
    }

    /// Whether someone is in the room.
    pub fn has_member(&self, uid: i32) -> (res: bool)
        ensures
            res == members(self@).contains(uid),
    {
        let all: Vec<i32> = self.members();
        text::contains_id(&all, uid)
    }

    /// The name of someone in the room.
    pub fn get_user_name_by_id(&self, users: &Table<i32, User>, uid: i32) -> (res: Option<String>)
        ensures
            match member_name(self@, table::views(users@), uid) {
                Some(name) => res matches Some(n) && n@ == name,
                None => res is None,
            },
    {
        if uid == 0 {
            return Some("系统".to_owned());
        }
        if !self.has_member(uid) {
            return None;
        }
        match users.get(&uid) {
            Some(user) => Some(user.name.clone()),
            None => None,
        }
    }

    /// The name of someone in the room, or their number.
    fn display_name(&self, users: &Table<i32, User>, uid: i32) -> (res: String)
        ensures
            res@ == display_name(self@, table::views(users@), uid),
    {
        match self.get_user_name_by_id(users, uid) {
            Some(name) => name,
            None => {
                let mut s: String = "用户#".to_owned();
                s.append(text::i32_text(uid).as_str());
                s
            },
        }
    }

    /// The line of the log for a message.
    pub fn format_message_for_log(&self, users: &Table<i32, User>, msg: &Message) -> (res: LogText)
        ensures
            res@ == log_line(self@, table::views(users@), msg.model()),
    {
        match msg {
            Message::Chat { user, content } => {
                let name: String = self.display_name(users, *user);
                LogText::Plain(join4("聊天：", name.as_str(), " — ", content.as_str()))
            },
            Message::CreateRoom { user, name } => {
                let id: String = text::i32_text(*user);
                LogText::Plain(join5("创建房间：", name.as_str(), " (", id.as_str(), ")"))
            },
            Message::JoinRoom { user, name } => {
                let id: String = text::i32_text(*user);
                LogText::Plain(join5("加入房间：", name.as_str(), " (", id.as_str(), ")"))
            },
            Message::LeaveRoom { user, name } => {
                let id: String = text::i32_text(*user);
                LogText::Plain(join5("离开房间：", name.as_str(), " (", id.as_str(), ")"))
            },
            Message::NewHost { user } => {
                let name: String = self.display_name(users, *user);
                LogText::Plain(join2("新房主：", name.as_str()))
            },
            Message::SelectChart { user, name, id } => {
                let uname: String = self.display_name(users, *user);
                let id: String = text::i32_text(*id);
                LogText::Plain(
                    join7(
                        "选择谱面：",
                        name.as_str(),
                        " 由 ",
                        uname.as_str(),
                        " (id=",
                        id.as_str(),
                        ")",
                    ),
                )
            },
            Message::GameStart { user } => {
                let name: String = self.display_name(users, *user);
                LogText::Plain(join3("请求开始：", name.as_str(), " 发起"))
            },
            Message::Ready { user } => {
                let name: String = self.display_name(users, *user);
                LogText::Plain(join2("准备：", name.as_str()))
            },
            Message::CancelReady { user } => {
                let name: String = self.display_name(users, *user);
                LogText::Plain(join2("取消准备：", name.as_str()))
            },
            Message::CancelGame { user } => {
                let name: String = self.display_name(users, *user);
                LogText::Plain(join2("取消比赛：", name.as_str()))
            },
            Message::StartPlaying => LogText::Plain("开始游戏".to_owned()),
            Message::Played { user, score, accuracy, full_combo } => {
                let name: String = self.display_name(users, *user);
                let score: String = text::i32_text(*score);
                LogText::Played {
                    head: join5("完成：", name.as_str(), " 分数=", score.as_str(), " 准确率="),
                    accuracy: *accuracy,
                    tail: join3("% 全连=", text::bool_text(*full_combo), " "),
                }
            },
            Message::GameEnd => LogText::Plain("游戏结束".to_owned()),
            Message::Abort { user } => {
                let name: String = self.display_name(users, *user);
                LogText::Plain(join2("中止：", name.as_str()))
            },
            Message::LockRoom { lock } => LogText::Plain(
                join2("房间锁定：", text::bool_text(*lock)),
            ),
            Message::CycleRoom { cycle } => LogText::Plain(
                join2("循环模式：", text::bool_text(*cycle)),
            ),
            Message::SelectLocalChart { user, name, id } => {
                let uname: String = self.display_name(users, *user);
                LogText::Plain(
                    join7(
                        "选择本地谱面：",
                        name.as_str(),
                        " 由 ",
                        uname.as_str(),
                        " (id=",
                        id.as_str(),
                        ")",
                    ),
                )
            },
            Message::SendChart { user } => {
                let name: String = self.display_name(users, *user);
                LogText::Plain(join2("开始分享谱面：", name.as_str()))
            },
            Message::DownloadReady { user } => {
                let name: String = self.display_name(users, *user);
                LogText::Plain(join2("谱面下载完成：", name.as_str()))
            },
        }
    }

    /// A command for everybody in the room.
    pub fn broadcast(&self, hub: &mut Hub, cmd: ServerCommand)
        ensures
            scene(*self, *final(hub)) == broadcast_to(scene(*self, *old(hub)), cmd.model()),
    {
        let to: Vec<i32> = self.members();
        hub.emit(Effect::Send { to, cmd });
    }

    /// A command for the watchers of the room.
    pub fn broadcast_monitors(&self, hub: &mut Hub, cmd: ServerCommand)
        ensures
            final(hub)@ == hub::emitted(
                old(hub)@,
                EffectModel::Send { to: self@.monitors, cmd: cmd.model() },
            ),
    {
        let to: Vec<i32> = copy_ids(&self.monitors);
        hub.emit(Effect::Send { to, cmd });
    }

    /// A message for everybody in the room, and its line in the log.
    pub fn send(&self, hub: &mut Hub, msg: Message)
        ensures
            scene(*self, *final(hub)) == announced(scene(*self, *old(hub)), msg.model()),
    {
        let text: LogText = self.format_message_for_log(&hub.users, &msg);
        hub.emit(Effect::Log { room: self.id.clone(), text });
        self.broadcast(hub, ServerCommand::Message(msg));
    }

    /// A user says something in the room.
    pub fn send_as(&self, hub: &mut Hub, user: i32, content: String)
        ensures
            scene(*self, *final(hub)) == announced(
                scene(*self, *old(hub)),
                MessageModel::Chat { user, content: content@ },
            ),
    {
        self.send(hub, Message::Chat { user, content });
    }

    /// What clients learn of what the room is doing.
    pub fn client_room_state(&self) -> (res: RoomState)
        ensures
            res == room_shown(self@),
    {
        let chart: Option<i32> = match &self.chart {
            Some(c) => Some(c.id),
            None => None,
        };
        self.state.to_client(chart)
    }

    /// Everybody in the room learns what it is doing.
    pub fn on_state_change(&self, hub: &mut Hub)
        ensures
            scene(*self, *final(hub)) == state_changed(scene(*self, *old(hub))),
    {
        let state: RoomState = self.client_room_state();
        self.broadcast(hub, ServerCommand::ChangeState(state));
    }

    /// Whether the room is watched live.
    pub fn is_live(&self) -> (res: bool)
        ensures
            res == self@.live,
    {
        self.live
    }

    /// Whether nobody can join the room.
    pub fn is_locked(&self) -> (res: bool)
        ensures
            res == self@.locked,
    {
        self.locked
    }

    /// Whether the players take turns as the host.
    pub fn is_cycle(&self) -> (res: bool)
        ensures
            res == self@.cycle,
    {
        self.cycle
    }

    /// Whether a user is the host.
    pub fn check_host(&self, user: i32) -> (res: bool)
        ensures
            res == (self@.host == Some(user)),
    {
        match self.host {
            Some(h) => h == user,
            None => false,
        }
    }

    /// Lets a member into the room; gives whether there was room.
    pub fn add_user(&mut self, user: i32, monitor: bool) -> (res: bool)
        ensures
            (final(self)@, res) == added(old(self)@, user, monitor),
    {
        if monitor {
            self.monitors.push(user);
            true
        } else if self.users.len() >= ROOM_MAX_USERS {
            false
        } else {
            self.users.push(user);
            true
        }
    }

    /// Drops the totals of the room.
    pub fn reset_judgement_stats(&mut self, hub: &mut Hub)
        ensures
            scene(*final(self), *final(hub)) == stats_reset(scene(*old(self), *old(hub))),
    {
        self.judgement_stats.clear();
        self.judge_events.clear();
        assert(self@.events =~= Seq::empty());
        let stats: Vec<PlayerJudgementStats> = Vec::new();
        assert(replay::list_views(stats@) =~= Seq::empty());
        hub.emit(Effect::Stats { room: self.id.clone(), stats });
    }

    /// Sets back the times of the players' games.
    pub fn reset_game_time(&self, hub: &mut Hub)
        ensures
            scene(*self, *final(hub)) == times_reset(scene(*self, *old(hub))),
    {
        hub.reset_times(&self.users);
    }

    /// Begins a game.
    fn start_game(&mut self, hub: &mut Hub)
        ensures
            scene(*final(self), *final(hub)) == game_started(scene(*old(self), *old(hub))),
    {
        self.reset_judgement_stats(hub);
        self.send(hub, Message::StartPlaying);
        self.reset_game_time(hub);
        self.state = InternalRoomState::fresh_game();
        self.on_state_change(hub);
    }

    /// Makes the next player the host.
    fn pass_host(&mut self, hub: &mut Hub)
        requires
            old(self)@.users.len() > 0,
        ensures
            scene(*final(self), *final(hub)) == host_passed(scene(*old(self), *old(hub))),
    {
        let old_host: Option<i32> = self.host;
        let index: usize = match old_host {
            Some(h) => {
                let place: usize = position(&self.users, h);
                if place < self.users.len() {
                    (place + 1) % self.users.len()
                } else {
                    0
                }
            },
            None => 0,
        };
        let new_host: i32 = self.users[index];
        self.host = Some(new_host);
        self.send(hub, Message::NewHost { user: new_host });
        if let Some(h) = old_host {
            hub.tell(h, ServerCommand::ChangeHost(false));
        }
        hub.tell(new_host, ServerCommand::ChangeHost(true));
    }

    /// Ends a game.
    fn end_game(&mut self, hub: &mut Hub)
        requires
            !(old(self)@.users.len() == 0 && old(self)@.cycle && !old(self)@.competition),
        ensures
            scene(*final(self), *final(hub)) == game_ended(scene(*old(self), *old(hub))),
    {
        self.send(hub, Message::GameEnd);
        self.state = InternalRoomState::SelectChart;
        if self.cycle {
            if self.is_competition {
                self.send(hub, Message::NewHost { user: 0 });
            } else {
                self.pass_host(hub);
            }
        }
        self.on_state_change(hub);
    }

    /// Whether every player who needs the shared chart has got it.
    fn shared_with_all(&self, hub: &Hub, started: &HashSet<i32>) -> (res: bool)
        ensures
            res == all_have_chart(scene(*self, *hub), started@),
    {
        if !self.chart_uploaded {
            return false;
        }
        let host: i32 = match self.host {
            Some(h) => h,
            None => {
                return false;
            },
        };
        let mut i: usize = 0;
        while i < self.users.len()
            invariant
                i <= self.users.len(),
                self.host == Some(host),
                forall|j: int|
                    0 <= j < i ==> exempt(host, hub@.users, #[trigger] self@.users[j])
                        || started@.contains(self@.users[j]),
            decreases self.users.len() - i,
        {
            let uid: i32 = self.users[i];
            let watches: bool = match hub.users.get(&uid) {
                Some(u) => u.monitor,
                None => false,
            };
            if !(uid == host || uid == RECORDER_BOT_USER_ID || watches) && !started.contains(&uid) {
                assert(!exempt(host, hub@.users, self@.users[i as int]));
                return false;
            }
            i += 1;
        }
        true
    }

    /// Whether everybody in the room is ready.
    fn everybody_ready(&self, started: &HashSet<i32>) -> (res: bool)
        ensures
            res == all_ready(self@, started@),
    {
        let all: Vec<i32> = self.members();
        let mut i: usize = 0;
        while i < all.len()
            invariant
                i <= all.len(),
                all@ == members(self@),
                forall|j: int| 0 <= j < i ==> started@.contains(#[trigger] members(self@)[j]),
            decreases all.len() - i,
        {
            if !started.contains(&all[i]) {
                assert(!started@.contains(members(self@)[i as int]));
                return false;
            }
            i += 1;
        }
        true
    }

    /// Whether every player is done with the game.
    pub fn everybody_done(&self, results: &HashMap<i32, Record>, aborted: &HashSet<i32>) -> (res:
        bool)
        ensures
            res == all_done(self@, results@, aborted@),
    {
        let mut i: usize = 0;
        while i < self.users.len()
            invariant
                i <= self.users.len(),
                forall|j: int|
                    0 <= j < i ==> results@.dom().contains(#[trigger] self@.users[j])
                        || aborted@.contains(self@.users[j]),
            decreases self.users.len() - i,
        {
            let uid: i32 = self.users[i];
            if !results.contains_key(&uid) && !aborted.contains(&uid) {
                assert(self@.users[i as int] == uid);
                return false;
            }
            i += 1;
        }
        true
    }

    /// Begins a game when everybody is ready, and ends one when everybody is done.
    pub fn check_all_ready(&mut self, hub: &mut Hub)
        requires
            !no_successor(old(self)@),
        ensures
            scene(*final(self), *final(hub)) == checked(scene(*old(self), *old(hub))),
    {
        match &self.state {
            InternalRoomState::SelectChart => {},
            InternalRoomState::LocalChart { started } => {
                if self.shared_with_all(hub, started) {
                    if let Some(host) = self.host {
                        if let Some((id, _)) = &self.local_chart {
                            let _ = hub.chart_cache.remove(id);
                        }
                        hub.tell(host, ServerCommand::HostReady);
                    }
                    self.chart_uploaded = false;
                    self.start_game(hub);
                }
            },
            InternalRoomState::WaitForReady { started } => {
                if self.everybody_ready(started) {
                    self.start_game(hub);
                }
            },
            InternalRoomState::Playing { results, aborted } => {
                if self.everybody_done(results, aborted) {
                    self.end_game(hub);
                }
            },
        }
    }

    /// The players who may become the host when someone leaves.
    pub fn successors(&self, user: &User) -> (res: Vec<i32>)
        ensures
            res@ == successors(self@, user@),
    {
        if user.monitor {
            copy_ids(&self.users)
        } else {
            without_id(&self.users, user.id)
        }
    }

    /// Whether someone can leave.
    pub fn leave_allowed(&self, user: &User) -> (res: bool)
        ensures
            res == can_leave(self@, user@),
    {
        if self.check_host(user.id) {
            return true;
        }
        let playing: bool = matches!(self.state, InternalRoomState::Playing { .. });
        let rest: Vec<i32> = self.successors(user);
        !(playing && rest.len() == 0 && self.cycle && !self.is_competition)
    }

    /// Someone leaves the room, and `pick` becomes the host if they were. Gives whether the
    /// room is to be dropped.
    pub fn leave(&mut self, hub: &mut Hub, user_id: i32, pick: Option<i32>) -> (res: bool)
        requires
            table::lookup(old(hub)@.users, user_id) matches Some(u) && u.id == user_id
                && can_leave(old(self)@, u) && valid_pick(pick, successors(old(self)@, u)),
        ensures
            table::lookup(old(hub)@.users, user_id) matches Some(u) ==> (
            scene(*final(self), *final(hub)),
            res,
            ) == left(scene(*old(self), *old(hub)), u, pick),
    {
        let ghost u = table::lookup(hub@.users, user_id)->Some_0;
        let ghost start = scene(*self, *hub);
        let (name, monitor): (String, bool) = match hub.users.get(&user_id) {
            Some(user) => (user.name.clone(), user.monitor),
            None => {
                return false;
            },
        };
        self.send(hub, Message::LeaveRoom { user: user_id, name });
        if let Some(user) = hub.users.get_mut(&user_id) {
            user.room = None;
        }
        if monitor {
            self.monitors = without_id(&self.monitors, user_id);
        } else {
            self.users = without_id(&self.users, user_id);
        }
        assert(scene(*self, *hub) == gone(start, u));
        if self.check_host(user_id) {
            if matches!(self.state, InternalRoomState::Playing { .. }) {
                self.local_chart = None;
                self.state = InternalRoomState::SelectChart;
                self.on_state_change(hub);
            }
            assert(scene(*self, *hub) == game_broken_off(gone(start, u)));
            if self.is_competition {
                self.send(hub, Message::NewHost { user: 0 });
            } else {
                match pick {
                    Some(p) => {
                        self.host = Some(p);
                        self.send(hub, Message::NewHost { user: p });
                        hub.tell(p, ServerCommand::ChangeHost(true));
                    },
                    None => {
                        return true;
                    },
                }
            }
        }
        self.check_all_ready(hub);
        false
    }

    /// Someone leaves the room, and one of the other players, by chance, becomes the host if
    /// they were. Gives whether the room is to be dropped.
    pub fn on_user_leave(&mut self, hub: &mut Hub, user_id: i32) -> (res: bool)
        requires
            table::lookup(old(hub)@.users, user_id) matches Some(u) && u.id == user_id
                && can_leave(old(self)@, u),
        ensures
            table::lookup(old(hub)@.users, user_id) matches Some(u) ==> exists|
                pick: Option<i32>,
            |
                valid_pick(pick, successors(old(self)@, u)) && (
                scene(*final(self), *final(hub)),
                res,
                ) == #[trigger] left(scene(*old(self), *old(hub)), u, pick),
    {
        let pick: Option<i32> = match hub.users.get(&user_id) {
            Some(user) => {
                let from: Vec<i32> = self.successors(user);
                choose_id(from.as_slice())
            },
            None => None,
        };
        self.leave(hub, user_id, pick)
    }

    /// Whether the totals of a player can be held after each of some judgements.
    pub fn judgements_fit(
        &self,
        user_id: i32,
        user_name: &String,
        events: &Vec<JudgeEvent>,
    ) -> (res: bool)
        ensures
            res == stats::counts(player_stats(self@, user_id, user_name@), events@),
    {
        match self.judgement_stats.get(&user_id) {
            Some(s) => s.can_count_all(events),
            None => PlayerJudgementStats::new(user_id, user_name.clone()).can_count_all(events),
        }
    }

    /// A player of the room hits notes.
    pub fn update_judgement_stats_batch(
        &mut self,
        hub: &mut Hub,
        user_id: i32,
        user_name: String,
        events: &Vec<JudgeEvent>,
    )
        requires
            stats::counts(player_stats(old(self)@, user_id, user_name@), events@),
        ensures
            scene(*final(self), *final(hub)) == notes_hit(
                scene(*old(self), *old(hub)),
                user_id,
                user_name@,
                events@,
            ),
    {
        if events.len() == 0 {
            return;
        }
        let ghost before = self@;
        let ghost first = player_stats(before, user_id, user_name@);
        let ghost name = user_name@;
        let mut totals: PlayerJudgementStats = match self.judgement_stats.get(&user_id) {
            Some(s) => s.duplicate(),
            None => PlayerJudgementStats::new(user_id, user_name.clone()),
        };
        let ghost kept = Seq::new(events@.len(), |i: int| stats::wrapped(user_id, name, events@[i]));
        let mut i: usize = 0;
        assert(events@.take(0) =~= Seq::empty());
        assert(before.events + kept.take(0) =~= before.events);
        while i < events.len()
            invariant
                i <= events.len(),
                name == user_name@,
                kept == Seq::new(
                    events@.len(),
                    |i: int| stats::wrapped(user_id, name, events@[i]),
                ),
                totals@ == stats::with_judgements(first, events@.take(i as int)),
                stats::counts(first, events@),
                self@ == (RoomModel { events: before.events + kept.take(i as int), ..before }),
            decreases events.len() - i,
        {
            let event: JudgeEvent = events[i];
            proof {
                stats::lemma_one_more(first, events@, i as int);
                assert(stats::in_range(stats::with_judgements(first, events@.take(i + 1))));
            }
            totals.add_judgement(&event.judgement);
            let wrapper = JudgeEventWrapper::from_judge_event(user_id, user_name.clone(), &event);
            let ghost old_events = self@.events;
            self.judge_events.push(wrapper);
            proof {
                assert(self@.events =~= old_events.push(wrapper@));
                assert(wrapper@ == kept[i as int]);
                assert(self@.events =~= before.events + kept.take(i + 1));
            }
            i += 1;
        }
        assert(events@.take(i as int) =~= events@);
        assert(kept.take(i as int) =~= kept);
        let _ = self.judgement_stats.insert(user_id, totals);
        let stats: Vec<PlayerJudgementStats> = self.stats_list();
        hub.emit(Effect::Stats { room: self.id.clone(), stats });
    }

    /// A player of the room hits one note.
    pub fn update_judgement_stats(
        &mut self,
        hub: &mut Hub,
        user_id: i32,
        user_name: String,
        event: &JudgeEvent,
    )
        requires
            stats::in_range(
                stats::with_judgement(
                    player_stats(old(self)@, user_id, user_name@),
                    event.judgement,
                ),
            ),
        ensures
            scene(*final(self), *final(hub)) == notes_hit(
                scene(*old(self), *old(hub)),
                user_id,
                user_name@,
                seq![*event],
            ),
    {
        let mut events: Vec<JudgeEvent> = Vec::new();
        events.push(*event);
        assert(events@ =~= seq![*event]);
        proof {
            let first = player_stats(self@, user_id, user_name@);
            assert forall|n: int| 0 < n <= events@.len() implies stats::in_range(
                stats::with_judgements(first, #[trigger] events@.take(n)),
            ) by {
                stats::lemma_one_more(first, events@, 0);
                assert(events@.take(0) =~= Seq::empty());
            }
        }
        self.update_judgement_stats_batch(hub, user_id, user_name, &events);
    }

    /// The totals of all players of the room.
    pub fn stats_list(&self) -> (res: Vec<PlayerJudgementStats>)
        ensures
            replay::list_views(res@) == all_stats(self@),
    {
        let mut res: Vec<PlayerJudgementStats> = Vec::new();
        let ghost all = all_stats(self@);
        let mut i: usize = 0;
        while i < self.judgement_stats.len()
            invariant
                i <= self.judgement_stats@.len(),
                all == all_stats(self@),
                replay::list_views(res@) =~= all.take(i as int),
            decreases self.judgement_stats@.len() - i,
        {
            let s: PlayerJudgementStats = self.judgement_stats.value(i).duplicate();
            let ghost before = res@;
            assert(s@ == all[i as int]);
            res.push(s);
            assert(replay::list_views(res@) =~= replay::list_views(before).push(s@));
            i += 1;
        }
        assert(replay::list_views(res@) =~= all);
        res
    }

    /// What is known of everybody in the room.
    pub fn member_infos(&self, users: &Table<i32, User>) -> (res: Vec<UserInfo>)
        ensures
            res.model() == infos(members(self@), table::views(users@)),
    {
        let all: Vec<i32> = self.members();
        let mut res: Vec<UserInfo> = Vec::new();
        let mut i: usize = 0;
        assert(all@.take(0) =~= Seq::empty());
        assert(res.model() =~= Seq::empty());
        while i < all.len()
            invariant
                i <= all.len(),
                res.model() == infos(all@.take(i as int), table::views(users@)),
            decreases all.len() - i,
        {
            assert(all@.take(i + 1).drop_last() =~= all@.take(i as int));
            if let Some(user) = users.get(&all[i]) {
                let info: UserInfo = user.to_info();
                let ghost before = res.model();
                res.push(info);
                assert(res.model() =~= before.push(info.model()));
            }
            i += 1;
        }
        assert(all@.take(i as int) =~= all@);
        res
    }

    /// The room as one of its members sees it.
    pub fn client_state(&self, hub: &Hub, user: i32) -> (res: ClientRoomState)
        ensures
            res.model() == client_view(scene(*self, *hub), user),
    {
        let infos: Vec<UserInfo> = self.member_infos(&hub.users);
        let ghost all = infos.model();
        let mut users: Table<i32, UserInfo> = Table::new();
        let mut i: usize = 0;
        assert(all.take(0) =~= Seq::empty());
        assert(users.model() =~= Seq::empty());
        while i < infos.len()
            invariant
                i <= infos.len(),
                all == infos.model(),
                users.model() == info_table(all.take(i as int)),
            decreases infos.len() - i,
        {
            let info: UserInfo = infos[i].clone();
            proof {
                assert(all.take(i + 1).drop_last() =~= all.take(i as int));
                assert(all[i as int] == info.model());
                table::lemma_put_models(users@, info.id, info);
            }
            let _ = users.insert(info.id, info);
            i += 1;
        }
        assert(all.take(i as int) =~= all);
        let is_ready: bool = match &self.state {
            InternalRoomState::WaitForReady { started } => started.contains(&user),
            _ => false,
        };
        ClientRoomState {
            id: self.id.clone(),
            state: self.client_room_state(),
            live: self.live,
            locked: self.locked,
            cycle: self.cycle,
            is_host: self.check_host(user),
            is_ready,
            users,
        }
    }
}

} // verus!
