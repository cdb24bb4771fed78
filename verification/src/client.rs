//! What a client knows of itself and its room, and how the server's commands change it.
use crate::bin::{BinError, BinaryData};
use crate::command::{
    ClientCommand, ClientCommandModel, ClientRoomState, ClientRoomStateModel, JoinRoomResponse,
    JoinRoomResponseModel, JudgeEvent, Message, MessageModel, RoomId, RoomState, ServerCommand,
    ServerCommandModel, TouchFrame, TouchFrameModel, UserInfo, UserInfoModel, Varchar,
};
use crate::replay;
use crate::room;
use crate::table;
use crate::table::Table;
use dashmap::DashMap;
use std::collections::HashSet;
use vstd::prelude::*;
use vstd::string::*;
use vstd::utf8::*;

verus! {

broadcast use {table::group_views, vstd::std_specs::hash::group_hash_axioms};

/// Seconds that a client waits for the answer to a request.
pub const TIMEOUT: u64 = 7;

/// The version of the protocol that a client begins a connection with.
pub const CLIENT_VERSION: u8 = 1;

/// What the server wants of a client about a shared chart.
#[derive(Debug, PartialEq, Eq)]
pub enum LocalChartEvent {
    /// Sharing begins or ends.
    ChangeLocalChart { local: bool, chart_id: String },
    /// The host is to hand out the chart.
    StartServing { chart_id: String, chart_name: String },
    /// The player is to fetch the chart.
    StartDownload {
        host_id: i32,
        host_name: String,
        addr: String,
        port: u16,
        chart_id: String,
        chart_name: String,
    },
    /// Every player has got the chart.
    HostReady,
    /// The host has stopped sharing.
    Canceled,
}

/// What a [`LocalChartEvent`] means.
#[verifier::ext_equal]
pub enum LocalChartModel {
    ChangeLocalChart { local: bool, chart_id: Seq<char> },
    StartServing { chart_id: Seq<char>, chart_name: Seq<char> },
    StartDownload {
        host_id: i32,
        host_name: Seq<char>,
        addr: Seq<char>,
        port: u16,
        chart_id: Seq<char>,
        chart_name: Seq<char>,
    },
    HostReady,
    Canceled,
}

impl View for LocalChartEvent {
    type V = LocalChartModel;

    open spec fn view(&self) -> LocalChartModel {
        match *self {
            LocalChartEvent::ChangeLocalChart { local, chart_id } =>
                LocalChartModel::ChangeLocalChart { local, chart_id: chart_id@ },
            LocalChartEvent::StartServing { chart_id, chart_name } =>
                LocalChartModel::StartServing { chart_id: chart_id@, chart_name: chart_name@ },
            LocalChartEvent::StartDownload {
                host_id,
                host_name,
                addr,
                port,
                chart_id,
                chart_name,
            } => LocalChartModel::StartDownload {
                host_id,
                host_name: host_name@,
                addr: addr@,
                port,
                chart_id: chart_id@,
                chart_name: chart_name@,
            },
            LocalChartEvent::HostReady => LocalChartModel::HostReady,
            LocalChartEvent::Canceled => LocalChartModel::Canceled,
        }
    }
}

/// What a player who is watched does.
#[derive(Debug, PartialEq, Eq)]
pub struct LivePlayer {
    pub touch_frames: Vec<TouchFrame>,
    pub judge_events: Vec<JudgeEvent>,
}

/// What a [`LivePlayer`] means.
#[verifier::ext_equal]
pub struct LiveModel {
    pub touch_frames: Seq<TouchFrameModel>,
    pub judge_events: Seq<JudgeEvent>,
}

impl View for LivePlayer {
    type V = LiveModel;

    open spec fn view(&self) -> LiveModel {
        LiveModel { touch_frames: self.touch_frames.model(), judge_events: self.judge_events@ }
    }
}

/// A player who has not been seen yet.
pub open spec fn new_live() -> LiveModel {
    LiveModel { touch_frames: Seq::empty(), judge_events: Seq::empty() }
}

/// A copy of a touch frame.
fn copy_frame(frame: &TouchFrame) -> (res: TouchFrame)
    ensures
        res.model() == frame.model(),
{
    let mut points: Vec<(i8, crate::command::CompactPos)> = Vec::new();
    let mut i: usize = 0;
    while i < frame.points.len()
        invariant
            i <= frame.points.len(),
            points@ =~= frame.points@.take(i as int),
        decreases frame.points.len() - i,
    {
        points.push((frame.points[i].0, frame.points[i].1));
        i += 1;
    }
    assert(points@ =~= frame.points@);
    TouchFrame { time: frame.time, points }
}

impl LivePlayer {
    /// A player who has not been seen yet.
    pub fn new() -> (res: LivePlayer)
        ensures
            res@ == new_live(),
    {
        let res = LivePlayer { touch_frames: Vec::new(), judge_events: Vec::new() };
        assert(res@ =~= new_live());
        res
    }

    /// The player touches the screen.
    fn extend_touches(&mut self, frames: &Vec<TouchFrame>)
        ensures
            final(self)@ == (LiveModel {
                touch_frames: old(self)@.touch_frames + frames.model(),
                ..old(self)@
            }),
    {
        let ghost before = self@;
        let ghost all = frames.model();
        let mut i: usize = 0;
        assert(before.touch_frames + all.take(0) =~= before.touch_frames);
        while i < frames.len()
            invariant
                i <= frames.len(),
                all == frames.model(),
                self@ == (LiveModel {
                    touch_frames: before.touch_frames + all.take(i as int),
                    ..before
                }),
            decreases frames.len() - i,
        {
            let frame: TouchFrame = copy_frame(&frames[i]);
            let ghost now = self@.touch_frames;
            self.touch_frames.push(frame);
            proof {
                assert(self@.touch_frames =~= now.push(frame.model()));
                assert(frame.model() == all[i as int]);
                assert(self@.touch_frames =~= before.touch_frames + all.take(i + 1));
            }
            i += 1;
        }
        assert(all.take(i as int) =~= all);
    }

    /// The player hits notes.
    fn extend_judges(&mut self, judges: &Vec<JudgeEvent>)
        ensures
            final(self)@ == (LiveModel {
                judge_events: old(self)@.judge_events + judges@,
                ..old(self)@
            }),
    {
        let ghost before = self@;
        let mut i: usize = 0;
        assert(before.judge_events + judges@.take(0) =~= before.judge_events);
        while i < judges.len()
            invariant
                i <= judges.len(),
                self@ == (LiveModel {
                    judge_events: before.judge_events + judges@.take(i as int),
                    ..before
                }),
            decreases judges.len() - i,
        {
            self.judge_events.push(judges[i]);
            assert(self@.judge_events =~= before.judge_events + judges@.take(i + 1));
            i += 1;
        }
        assert(judges@.take(i as int) =~= judges@);
    }
}

/// `dashmap::DashMap`, a hash map that can be shared.
#[verifier::external_type_specification]
#[verifier::external_body]
#[verifier::reject_recursive_types(K)]
#[verifier::reject_recursive_types(V)]
#[verifier::reject_recursive_types(S)]
pub struct ExDashMap<K, V, S>(dashmap::DashMap<K, V, S>);

/// What a map from players to places holds.
pub uninterp spec fn places(m: DashMap<i32, usize>) -> Map<i32, usize>;

/// `DashMap::new` gives an empty map.
#[verifier::external_body]
fn no_places() -> (res: DashMap<i32, usize>)
    ensures
        places(res).dom() == Set::<i32>::empty(),
{
    DashMap::new()
}

/// `DashMap::entry` and `Entry::or_insert` give the value under a key, after putting `fresh`
/// there if there was none.
#[verifier::external_body]
fn place_or_insert(m: &mut DashMap<i32, usize>, player: i32, fresh: usize) -> (res: usize)
    ensures
        places(*old(m)).dom().contains(player) ==> res == places(*old(m))[player] && places(
            *final(m),
        ) == places(*old(m)),
        !places(*old(m)).dom().contains(player) ==> res == fresh && places(*final(m)) == places(
            *old(m),
        ).insert(player, fresh),
{
    *m.entry(player).or_insert(fresh)
}

/// `DashMap::clear` takes every entry out.
#[verifier::external_body]
fn clear_places(m: &mut DashMap<i32, usize>)
    ensures
        places(*final(m)).dom() == Set::<i32>::empty(),
{
    m.clear()
}

/// A request that is answered.
#[derive(Debug, Clone, Copy, PartialEq, Eq, Structural)]
pub enum Call {
    Authenticate,
    Chat,
    CreateRoom,
    JoinRoom,
    LeaveRoom,
    LockRoom,
    CycleRoom,
    SelectChart,
    RequestStart,
    Ready,
    CancelReady,
    Played,
    Abort,
    SelectLocalChart,
    SelectOnlineChart,
    SendChart,
    DownloadReady,
    CancelLocalChart,
    CancelDownloadReady,
    UploadChart,
    DownloadChart,
}

impl Call {
    /// The number of a request.
    pub open spec fn number(self) -> u8 {
        match self {
            Call::Authenticate => 0,
            Call::Chat => 1,
            Call::CreateRoom => 2,
            Call::JoinRoom => 3,
            Call::LeaveRoom => 4,
            Call::LockRoom => 5,
            Call::CycleRoom => 6,
            Call::SelectChart => 7,
            Call::RequestStart => 8,
            Call::Ready => 9,
            Call::CancelReady => 10,
            Call::Played => 11,
            Call::Abort => 12,
            Call::SelectLocalChart => 13,
            Call::SelectOnlineChart => 14,
            Call::SendChart => 15,
            Call::DownloadReady => 16,
            Call::CancelLocalChart => 17,
            Call::CancelDownloadReady => 18,
            Call::UploadChart => 19,
            Call::DownloadChart => 20,
        }
    }

    /// The number of this request.
    fn to_number(&self) -> (res: u8)
        ensures
            res == self.number(),
    {
        match self {
            Call::Authenticate => 0,
            Call::Chat => 1,
            Call::CreateRoom => 2,
            Call::JoinRoom => 3,
            Call::LeaveRoom => 4,
            Call::LockRoom => 5,
            Call::CycleRoom => 6,
            Call::SelectChart => 7,
            Call::RequestStart => 8,
            Call::Ready => 9,
            Call::CancelReady => 10,
            Call::Played => 11,
            Call::Abort => 12,
            Call::SelectLocalChart => 13,
            Call::SelectOnlineChart => 14,
            Call::SendChart => 15,
            Call::DownloadReady => 16,
            Call::CancelLocalChart => 17,
            Call::CancelDownloadReady => 18,
            Call::UploadChart => 19,
            Call::DownloadChart => 20,
        }
    }
}

/// The answer to a request.
#[derive(Debug, PartialEq, Eq)]
pub enum Answer {
    Done(Result<(), String>),
    Authenticated(Result<(UserInfo, Option<ClientRoomState>), String>),
    Joined(Result<JoinRoomResponse, String>),
    Downloaded(Result<Vec<u8>, String>),
}

/// What an [`Answer`] means.
#[verifier::ext_equal]
pub enum AnswerModel {
    Done(Result<(), Seq<char>>),
    Authenticated(Result<(UserInfoModel, Option<ClientRoomStateModel>), Seq<char>>),
    Joined(Result<JoinRoomResponseModel, Seq<char>>),
    Downloaded(Result<Seq<u8>, Seq<char>>),
}

impl View for Answer {
    type V = AnswerModel;

    open spec fn view(&self) -> AnswerModel {
        match *self {
            Answer::Done(r) => AnswerModel::Done(r.model()),
            Answer::Authenticated(r) => AnswerModel::Authenticated(r.model()),
            Answer::Joined(r) => AnswerModel::Joined(r.model()),
            Answer::Downloaded(r) => AnswerModel::Downloaded(r.model()),
        }
    }
}

/// What a command of the server means for those who wait.
#[derive(Debug, PartialEq, Eq)]
pub enum Heard {
    Nothing,
    /// A ping was answered.
    Pong,
    /// A request was answered.
    Answer(Call, Answer),
}

/// What a [`Heard`] means.
#[verifier::ext_equal]
pub enum HeardModel {
    Nothing,
    Pong,
    Answer(Call, AnswerModel),
}

impl View for Heard {
    type V = HeardModel;

    open spec fn view(&self) -> HeardModel {
        match *self {
            Heard::Nothing => HeardModel::Nothing,
            Heard::Pong => HeardModel::Pong,
            Heard::Answer(c, a) => HeardModel::Answer(c, a@),
        }
    }
}

/// What a client knows.
pub struct Client {
    me: Option<UserInfo>,
    room: Option<ClientRoomState>,
    pending: HashSet<u8>,
    local_chart_events: Vec<LocalChartEvent>,
    messages: Vec<Message>,
    places: DashMap<i32, usize>,
    players: Vec<LivePlayer>,
    ping_fail_count: u8,
}

/// What a [`Client`] means.
#[verifier::ext_equal]
pub struct ClientModel {
    pub me: Option<UserInfoModel>,
    pub room: Option<ClientRoomStateModel>,
    pub pending: Set<Call>,
    pub local_chart_events: Seq<LocalChartModel>,
    pub messages: Seq<MessageModel>,
    pub live_players: Map<i32, LiveModel>,
    pub ping_fails: u8,
}

impl View for Client {
    type V = ClientModel;

    closed spec fn view(&self) -> ClientModel {
        ClientModel {
            me: self.me.model(),
            room: self.room.model(),
            pending: Set::new(|c: Call| self.pending@.contains(c.number())),
            local_chart_events: replay::list_views(self.local_chart_events@),
            messages: self.messages.model(),
            live_players: Map::new(
                |p: i32| places(self.places).dom().contains(p),
                |p: i32| self.players@[places(self.places)[p] as int]@,
            ),
            ping_fails: self.ping_fail_count,
        }
    }
}

/// A client with one more request under way.
pub open spec fn requested(c: ClientModel, call: Call) -> ClientModel {
    ClientModel { pending: c.pending.insert(call), ..c }
}

/// A request is answered.
pub open spec fn answered(c: ClientModel, call: Call, a: AnswerModel) -> (
    ClientModel,
    HeardModel,
) {
    (ClientModel { pending: c.pending.remove(call), ..c }, HeardModel::Answer(call, a))
}

/// What is seen of a player who is watched.
pub open spec fn live_of(c: ClientModel, player: i32) -> LiveModel {
    if c.live_players.dom().contains(player) {
        c.live_players[player]
    } else {
        new_live()
    }
}

/// Something more is seen of a player who is watched.
pub open spec fn watched(c: ClientModel, player: i32, l: LiveModel) -> ClientModel {
    ClientModel { live_players: c.live_players.insert(player, l), ..c }
}

/// Something about a shared chart is kept for later.
pub open spec fn noted(c: ClientModel, e: LocalChartModel) -> ClientModel {
    ClientModel { local_chart_events: c.local_chart_events.push(e), ..c }
}

/// What a message changes in the room of a client.
pub open spec fn room_after(r: ClientRoomStateModel, m: MessageModel) -> ClientRoomStateModel {
    match m {
        MessageModel::LockRoom { lock } => ClientRoomStateModel { locked: lock, ..r },
        MessageModel::CycleRoom { cycle } => ClientRoomStateModel { cycle, ..r },
        MessageModel::LeaveRoom { user, .. } => ClientRoomStateModel {
            users: table::without(r.users, user),
            ..r
        },
        _ => r,
    }
}

/// What a command of the server does to a client, and what it means for those who wait.
pub open spec fn processed(c: ClientModel, cmd: ServerCommandModel) -> (ClientModel, HeardModel) {
    match cmd {
        ServerCommandModel::Pong => (c, HeardModel::Pong),
        ServerCommandModel::Authenticate(r) => answered(
            c,
            Call::Authenticate,
            AnswerModel::Authenticated(r),
        ),
        ServerCommandModel::JoinRoom(r) => answered(c, Call::JoinRoom, AnswerModel::Joined(r)),
        ServerCommandModel::DownloadChart(r) => answered(
            c,
            Call::DownloadChart,
            AnswerModel::Downloaded(r),
        ),
        ServerCommandModel::Touches { player, frames } => {
            let l = live_of(c, player);
            (
                watched(
                    c,
                    player,
                    LiveModel { touch_frames: l.touch_frames + frames, ..l },
                ),
                HeardModel::Nothing,
            )
        },
        ServerCommandModel::Judges { player, judges } => {
            let l = live_of(c, player);
            (
                watched(
                    c,
                    player,
                    LiveModel { judge_events: l.judge_events + judges, ..l },
                ),
                HeardModel::Nothing,
            )
        },
        ServerCommandModel::Message(m) => (
            ClientModel {
                room: match c.room {
                    Some(r) => Some(room_after(r, m)),
                    None => None,
                },
                messages: c.messages.push(m),
                ..c
            },
            HeardModel::Nothing,
        ),
        ServerCommandModel::ChangeState(state) => (
            ClientModel {
                room: match c.room {
                    Some(r) => Some(
                        ClientRoomStateModel { state, is_ready: r.is_host, ..r },
                    ),
                    None => None,
                },
                live_players: Map::empty(),
                ..c
            },
            HeardModel::Nothing,
        ),
        ServerCommandModel::ChangeHost(is_host) => (
            ClientModel {
                room: match c.room {
                    Some(r) => Some(ClientRoomStateModel { is_host, ..r }),
                    None => None,
                },
                ..c
            },
            HeardModel::Nothing,
        ),
        ServerCommandModel::OnJoinRoom(user) => (
            ClientModel {
                room: match c.room {
                    Some(r) => Some(
                        ClientRoomStateModel {
                            live: r.live || user.monitor,
                            users: table::put(r.users, user.id, user),
                            ..r
                        },
                    ),
                    None => None,
                },
                ..c
            },
            HeardModel::Nothing,
        ),
        ServerCommandModel::ChangeLocalChart { local, chart_id } => (
            noted(c, LocalChartModel::ChangeLocalChart { local, chart_id }),
            HeardModel::Nothing,
        ),
        ServerCommandModel::StartServing { chart_id, chart_name } => (
            noted(c, LocalChartModel::StartServing { chart_id, chart_name }),
            HeardModel::Nothing,
        ),
        ServerCommandModel::StartDownload {
            host_id,
            host_name,
            addr,
            port,
            chart_id,
            chart_name,
        } => (
            noted(
                c,
                LocalChartModel::StartDownload {
                    host_id,
                    host_name,
                    addr,
                    port,
                    chart_id,
                    chart_name,
                },
            ),
            HeardModel::Nothing,
        ),
        ServerCommandModel::HostReady => (
            noted(c, LocalChartModel::HostReady),
            HeardModel::Nothing,
        ),
        ServerCommandModel::LocalChartCanceled => (
            noted(c, LocalChartModel::Canceled),
            HeardModel::Nothing,
        ),
        ServerCommandModel::Chat(r) => answered(c, Call::Chat, AnswerModel::Done(r)),
        ServerCommandModel::CreateRoom(r) => answered(c, Call::CreateRoom, AnswerModel::Done(r)),
        ServerCommandModel::LeaveRoom(r) => answered(c, Call::LeaveRoom, AnswerModel::Done(r)),
        ServerCommandModel::LockRoom(r) => answered(c, Call::LockRoom, AnswerModel::Done(r)),
        ServerCommandModel::CycleRoom(r) => answered(c, Call::CycleRoom, AnswerModel::Done(r)),
        ServerCommandModel::SelectChart(r) => answered(c, Call::SelectChart, AnswerModel::Done(r)),
        ServerCommandModel::RequestStart(r) => answered(c, Call::RequestStart, AnswerModel::Done(r)),
        ServerCommandModel::Ready(r) => answered(c, Call::Ready, AnswerModel::Done(r)),
        ServerCommandModel::CancelReady(r) => answered(c, Call::CancelReady, AnswerModel::Done(r)),
        ServerCommandModel::Played(r) => answered(c, Call::Played, AnswerModel::Done(r)),
        ServerCommandModel::Abort(r) => answered(c, Call::Abort, AnswerModel::Done(r)),
        ServerCommandModel::SelectLocalChart(r) => answered(c, Call::SelectLocalChart, AnswerModel::Done(r)),
        ServerCommandModel::SelectOnlineChart(r) => answered(c, Call::SelectOnlineChart, AnswerModel::Done(r)),
        ServerCommandModel::SendChart(r) => answered(c, Call::SendChart, AnswerModel::Done(r)),
        ServerCommandModel::DownloadReady(r) => answered(c, Call::DownloadReady, AnswerModel::Done(r)),
        ServerCommandModel::CancelLocalChart(r) => answered(c, Call::CancelLocalChart, AnswerModel::Done(r)),
        ServerCommandModel::CancelDownloadReady(r) => answered(c, Call::CancelDownloadReady, AnswerModel::Done(r)),
        ServerCommandModel::UploadChart(r) => answered(c, Call::UploadChart, AnswerModel::Done(r)),
    }
}

/// The commands that a client can take: an answer only to a request that is under way, and
/// news of the room only in a room.
pub open spec fn accepts(c: ClientModel, cmd: ServerCommandModel) -> bool {
    match cmd {
        ServerCommandModel::Authenticate(_) => c.pending.contains(Call::Authenticate),
        ServerCommandModel::Chat(_) => c.pending.contains(Call::Chat),
        ServerCommandModel::CreateRoom(_) => c.pending.contains(Call::CreateRoom),
        ServerCommandModel::JoinRoom(_) => c.pending.contains(Call::JoinRoom),
        ServerCommandModel::LeaveRoom(_) => c.pending.contains(Call::LeaveRoom),
        ServerCommandModel::LockRoom(_) => c.pending.contains(Call::LockRoom),
        ServerCommandModel::CycleRoom(_) => c.pending.contains(Call::CycleRoom),
        ServerCommandModel::SelectChart(_) => c.pending.contains(Call::SelectChart),
        ServerCommandModel::RequestStart(_) => c.pending.contains(Call::RequestStart),
        ServerCommandModel::Ready(_) => c.pending.contains(Call::Ready),
        ServerCommandModel::CancelReady(_) => c.pending.contains(Call::CancelReady),
        ServerCommandModel::Played(_) => c.pending.contains(Call::Played),
        ServerCommandModel::Abort(_) => c.pending.contains(Call::Abort),
        ServerCommandModel::SelectLocalChart(_) => c.pending.contains(Call::SelectLocalChart),
        ServerCommandModel::SelectOnlineChart(_) => c.pending.contains(Call::SelectOnlineChart),
        ServerCommandModel::SendChart(_) => c.pending.contains(Call::SendChart),
        ServerCommandModel::DownloadReady(_) => c.pending.contains(Call::DownloadReady),
        ServerCommandModel::CancelLocalChart(_) => c.pending.contains(Call::CancelLocalChart),
        ServerCommandModel::CancelDownloadReady(_) => c.pending.contains(Call::CancelDownloadReady),
        ServerCommandModel::UploadChart(_) => c.pending.contains(Call::UploadChart),
        ServerCommandModel::DownloadChart(_) => c.pending.contains(Call::DownloadChart),
        ServerCommandModel::Message(m) => match m {
            MessageModel::LockRoom { .. } => c.room is Some,
            MessageModel::CycleRoom { .. } => c.room is Some,
            MessageModel::LeaveRoom { .. } => c.room is Some,
            _ => true,
        },
        ServerCommandModel::ChangeState(_) => c.room is Some,
        ServerCommandModel::ChangeHost(_) => c.room is Some,
        _ => true,
    }
}

impl Client {
    /// Every player who is watched has a place of their own.
    pub closed spec fn wf(&self) -> bool {
        &&& forall|p: i32|
            places(self.places).dom().contains(p) ==> #[trigger] places(self.places)[p]
                < self.players.len()
        &&& forall|p: i32, q: i32|
            places(self.places).dom().contains(p) && places(self.places).dom().contains(q) && p
                != q ==> #[trigger] places(self.places)[p] != #[trigger] places(self.places)[q]
    }

    /// A client that has just connected.
    pub fn new() -> (res: Client)
        ensures
            res.wf(),
            res@ == (ClientModel {
                me: None,
                room: None,
                pending: Set::empty(),
                local_chart_events: Seq::empty(),
                messages: Seq::empty(),
                live_players: Map::empty(),
                ping_fails: 0,
            }),
    {
        let res = Client {
            me: None,
            room: None,
            pending: HashSet::new(),
            local_chart_events: Vec::new(),
            messages: Vec::new(),
            places: no_places(),
            players: Vec::new(),
            ping_fail_count: 0,
        };
        proof {
            assert(res@.pending =~= Set::empty());
            assert(res@.local_chart_events =~= Seq::empty());
            assert(res@.messages =~= Seq::empty());
            assert(res@.live_players =~= Map::empty());
        }
        res
    }

    /// A request is under way.
    fn register(&mut self, call: Call)
        requires
            old(self).wf(),
        ensures
            final(self).wf(),
            final(self)@ == requested(old(self)@, call),
    {
        let _ = self.pending.insert(call.to_number());
        assert(self@.pending =~= old(self)@.pending.insert(call));
    }

    /// Whether a request is under way.
    pub fn is_pending(&self, call: Call) -> (res: bool)
        ensures
            res == self@.pending.contains(call),
    {
        self.pending.contains(&call.to_number())
    }

    /// A request is answered.
    fn answer(&mut self, call: Call, answer: Answer) -> (res: Heard)
        requires
            old(self).wf(),
        ensures
            final(self).wf(),
            (final(self)@, res@) == answered(old(self)@, call, answer@),
    {
        let _ = self.pending.remove(&call.to_number());
        assert(self@.pending =~= old(self)@.pending.remove(call));
        Heard::Answer(call, answer)
    }

    /// The place of a player who is watched; a new one if they were not seen before.
    fn place_of(&mut self, player: i32) -> (res: usize)
        requires
            old(self).wf(),
        ensures
            final(self).wf(),
            final(self)@ == watched(old(self)@, player, live_of(old(self)@, player)),
            res < final(self).players.len(),
            places(final(self).places).dom().contains(player),
            places(final(self).places)[player] == res,
    {
        let fresh: usize = self.players.len();
        let ghost before = places(self.places);
        let place: usize = place_or_insert(&mut self.places, player, fresh);
        if place == fresh {
            proof {
                if before.dom().contains(player) {
                    assert(before[player] < self.players.len());
                }
            }
            self.players.push(LivePlayer::new());
        }
        assert(self@.live_players =~= old(self)@.live_players.insert(
            player,
            live_of(old(self)@, player),
        ));
        place
    }

    /// What is seen of a player who is watched, to be looked at or taken away.
    pub fn live_player(&mut self, player: i32) -> (res: &mut LivePlayer)
        requires
            old(self).wf(),
        ensures
            (*res)@ == live_of(old(self)@, player),
            final(self).wf(),
            final(self)@ == watched(old(self)@, player, final(res)@),
    {
        let place: usize = self.place_of(player);
        assert(self@.live_players[player] == self.players@[place as int]@);
        let ghost mid = *self;
        let res = &mut self.players[place];
        proof {
            let seen = after_borrow(*self);
            assert(seen.players@ =~= mid.players@.update(place as int, *final(res)));
            assert forall|p: i32| p != player && mid@.live_players.dom().contains(p) implies
                #[trigger] seen@.live_players[p] == mid@.live_players[p] by {
                assert(places(mid.places)[p] != places(mid.places)[player]);
            }
            assert(seen@.live_players[player] == final(res)@);
            assert(seen@.live_players =~= mid@.live_players.insert(player, final(res)@));
            assert(seen@.live_players =~= old(self)@.live_players.insert(player, final(res)@));
        }
        res
    }

    /// Something about a shared chart is kept for later.
    fn note(&mut self, event: LocalChartEvent) -> (res: Heard)
        requires
            old(self).wf(),
        ensures
            final(self).wf(),
            final(self)@ == noted(old(self)@, event@),
            res@ == HeardModel::Nothing,
    {
        self.local_chart_events.push(event);
        assert(self@.local_chart_events =~= old(self)@.local_chart_events.push(event@));
        Heard::Nothing
    }

    /// A player who is watched touches the screen.
    fn see_touches(&mut self, player: i32, frames: &Vec<TouchFrame>)
        requires
            old(self).wf(),
        ensures
            final(self).wf(),
            final(self)@ == processed(
                old(self)@,
                ServerCommandModel::Touches { player, frames: frames.model() },
            ).0,
    {
        let place: usize = self.place_of(player);
        let ghost mid = self@;
        let ghost where_at = places(self.places);
        let ghost seen = self.players@;
        self.players[place].extend_touches(frames);
        proof {
            let l = live_of(old(self)@, player);
            let m = LiveModel { touch_frames: l.touch_frames + frames.model(), ..l };
            assert(mid.live_players[player] == l);
            assert(self.players@[place as int]@ == m);
            assert(places(self.places) == where_at);
            let want = old(self)@.live_players.insert(player, m);
            assert forall|p: i32| #[trigger] want.dom().contains(p) implies
                self@.live_players.dom().contains(p) && self@.live_players[p] == want[p] by {
                if p != player {
                    assert(mid.live_players.dom().contains(p));
                    assert(where_at.dom().contains(p));
                    assert(where_at[p] != where_at[player]);
                    assert(self.players@[where_at[p] as int] == seen[where_at[p] as int]);
                    assert(mid.live_players[p] == old(self)@.live_players[p]);
                }
            }
            assert forall|p: i32| #[trigger] self@.live_players.dom().contains(p) implies
                want.dom().contains(p) by {
                assert(where_at.dom().contains(p));
                assert(mid.live_players.dom().contains(p));
            }
            assert(self@.live_players =~= want);
        }
    }

    /// A player who is watched hits notes.
    fn see_judges(&mut self, player: i32, judges: &Vec<JudgeEvent>)
        requires
            old(self).wf(),
        ensures
            final(self).wf(),
            final(self)@ == processed(
                old(self)@,
                ServerCommandModel::Judges { player, judges: judges@ },
            ).0,
    {
        let place: usize = self.place_of(player);
        let ghost mid = self@;
        let ghost where_at = places(self.places);
        let ghost seen = self.players@;
        self.players[place].extend_judges(judges);
        proof {
            let l = live_of(old(self)@, player);
            let m = LiveModel { judge_events: l.judge_events + judges@, ..l };
            assert(mid.live_players[player] == l);
            assert(self.players@[place as int]@ == m);
            assert(places(self.places) == where_at);
            let want = old(self)@.live_players.insert(player, m);
            assert forall|p: i32| #[trigger] want.dom().contains(p) implies
                self@.live_players.dom().contains(p) && self@.live_players[p] == want[p] by {
                if p != player {
                    assert(mid.live_players.dom().contains(p));
                    assert(where_at.dom().contains(p));
                    assert(where_at[p] != where_at[player]);
                    assert(self.players@[where_at[p] as int] == seen[where_at[p] as int]);
                    assert(mid.live_players[p] == old(self)@.live_players[p]);
                }
            }
            assert forall|p: i32| #[trigger] self@.live_players.dom().contains(p) implies
                want.dom().contains(p) by {
                assert(where_at.dom().contains(p));
                assert(mid.live_players.dom().contains(p));
            }
            assert(self@.live_players =~= want);
        }
    }

    /// Something happened in the room.
    fn hear_message(&mut self, msg: Message)
        requires
            old(self).wf(),
            accepts(old(self)@, ServerCommandModel::Message(msg.model())),
        ensures
            final(self).wf(),
            final(self)@ == processed(
                old(self)@,
                ServerCommandModel::Message(msg.model()),
            ).0,
    {
        if let Some(room) = &mut self.room {
            match &msg {
                Message::LockRoom { lock } => {
                    room.locked = *lock;
                },
                Message::CycleRoom { cycle } => {
                    room.cycle = *cycle;
                },
                Message::LeaveRoom { user, .. } => {
                    proof {
                        lemma_without_models(room.users@, *user);
                    }
                    let _ = room.users.remove(user);
                },
                _ => {},
            }
        }
        self.messages.push(msg);
        assert(self@.messages =~= old(self)@.messages.push(msg.model()));
    }

    /// Whether the client can take a command.
    pub fn can_accept(&self, cmd: &ServerCommand) -> (res: bool)
        ensures
            res == accepts(self@, cmd.model()),
    {
        match cmd {
            ServerCommand::Authenticate(_) => self.is_pending(Call::Authenticate),
            ServerCommand::Chat(_) => self.is_pending(Call::Chat),
            ServerCommand::CreateRoom(_) => self.is_pending(Call::CreateRoom),
            ServerCommand::JoinRoom(_) => self.is_pending(Call::JoinRoom),
            ServerCommand::LeaveRoom(_) => self.is_pending(Call::LeaveRoom),
            ServerCommand::LockRoom(_) => self.is_pending(Call::LockRoom),
            ServerCommand::CycleRoom(_) => self.is_pending(Call::CycleRoom),
            ServerCommand::SelectChart(_) => self.is_pending(Call::SelectChart),
            ServerCommand::RequestStart(_) => self.is_pending(Call::RequestStart),
            ServerCommand::Ready(_) => self.is_pending(Call::Ready),
            ServerCommand::CancelReady(_) => self.is_pending(Call::CancelReady),
            ServerCommand::Played(_) => self.is_pending(Call::Played),
            ServerCommand::Abort(_) => self.is_pending(Call::Abort),
            ServerCommand::SelectLocalChart(_) => self.is_pending(Call::SelectLocalChart),
            ServerCommand::SelectOnlineChart(_) => self.is_pending(Call::SelectOnlineChart),
            ServerCommand::SendChart(_) => self.is_pending(Call::SendChart),
            ServerCommand::DownloadReady(_) => self.is_pending(Call::DownloadReady),
            ServerCommand::CancelLocalChart(_) => self.is_pending(Call::CancelLocalChart),
            ServerCommand::CancelDownloadReady(_) => self.is_pending(Call::CancelDownloadReady),
            ServerCommand::UploadChart(_) => self.is_pending(Call::UploadChart),
            ServerCommand::DownloadChart(_) => self.is_pending(Call::DownloadChart),
            ServerCommand::Message(m) => match m {
                Message::LockRoom { .. } => self.room.is_some(),
                Message::CycleRoom { .. } => self.room.is_some(),
                Message::LeaveRoom { .. } => self.room.is_some(),
                _ => true,
            },
            ServerCommand::ChangeState(_) => self.room.is_some(),
            ServerCommand::ChangeHost(_) => self.room.is_some(),
            _ => true,
        }
    }

    /// Takes a command of the server.
    pub fn process(&mut self, cmd: ServerCommand) -> (res: Heard)
        requires
            old(self).wf(),
            accepts(old(self)@, cmd.model()),
        ensures
            final(self).wf(),
            (final(self)@, res@) == processed(old(self)@, cmd.model()),
    {
        match cmd {
            ServerCommand::Pong => Heard::Pong,
            ServerCommand::Authenticate(res) => self.answer(
                Call::Authenticate,
                Answer::Authenticated(res),
            ),
            ServerCommand::JoinRoom(res) => self.answer(Call::JoinRoom, Answer::Joined(res)),
            ServerCommand::DownloadChart(res) => self.answer(
                Call::DownloadChart,
                Answer::Downloaded(res),
            ),
            ServerCommand::Touches { player, frames } => {
                self.see_touches(player, &*frames);
                Heard::Nothing
            },
            ServerCommand::Judges { player, judges } => {
                assert(judges.model() =~= (*judges)@);
                self.see_judges(player, &*judges);
                Heard::Nothing
            },
            ServerCommand::Message(msg) => {
                self.hear_message(msg);
                Heard::Nothing
            },
            ServerCommand::ChangeState(state) => {
                clear_places(&mut self.places);
                self.players = Vec::new();
                if let Some(room) = &mut self.room {
                    room.state = state;
                    room.is_ready = room.is_host;
                }
                assert(self@.live_players =~= Map::empty());
                Heard::Nothing
            },
            ServerCommand::ChangeHost(is_host) => {
                if let Some(room) = &mut self.room {
                    room.is_host = is_host;
                }
                Heard::Nothing
            },
            ServerCommand::OnJoinRoom(user) => {
                if let Some(room) = &mut self.room {
                    room.live = room.live || user.monitor;
                    proof {
                        table::lemma_put_models(room.users@, user.id, user);
                    }
                    let _ = room.users.insert(user.id, user);
                }
                Heard::Nothing
            },
            ServerCommand::ChangeLocalChart { local, chart_id } => self.note(
                LocalChartEvent::ChangeLocalChart { local, chart_id },
            ),
            ServerCommand::StartServing { chart_id, chart_name } => self.note(
                LocalChartEvent::StartServing { chart_id, chart_name },
            ),
            ServerCommand::StartDownload {
                host_id,
                host_name,
                addr,
                port,
                chart_id,
                chart_name,
            } => self.note(
                LocalChartEvent::StartDownload {
                    host_id,
                    host_name,
                    addr,
                    port,
                    chart_id,
                    chart_name,
                },
            ),
            ServerCommand::HostReady => self.note(LocalChartEvent::HostReady),
            ServerCommand::LocalChartCanceled => self.note(LocalChartEvent::Canceled),
            ServerCommand::Chat(res) => self.answer(Call::Chat, Answer::Done(res)),
            ServerCommand::CreateRoom(res) => self.answer(Call::CreateRoom, Answer::Done(res)),
            ServerCommand::LeaveRoom(res) => self.answer(Call::LeaveRoom, Answer::Done(res)),
            ServerCommand::LockRoom(res) => self.answer(Call::LockRoom, Answer::Done(res)),
            ServerCommand::CycleRoom(res) => self.answer(Call::CycleRoom, Answer::Done(res)),
            ServerCommand::SelectChart(res) => self.answer(Call::SelectChart, Answer::Done(res)),
            ServerCommand::RequestStart(res) => self.answer(Call::RequestStart, Answer::Done(res)),
            ServerCommand::Ready(res) => self.answer(Call::Ready, Answer::Done(res)),
            ServerCommand::CancelReady(res) => self.answer(Call::CancelReady, Answer::Done(res)),
            ServerCommand::Played(res) => self.answer(Call::Played, Answer::Done(res)),
            ServerCommand::Abort(res) => self.answer(Call::Abort, Answer::Done(res)),
            ServerCommand::SelectLocalChart(res) => self.answer(Call::SelectLocalChart, Answer::Done(res)),
            ServerCommand::SelectOnlineChart(res) => self.answer(Call::SelectOnlineChart, Answer::Done(res)),
            ServerCommand::SendChart(res) => self.answer(Call::SendChart, Answer::Done(res)),
            ServerCommand::DownloadReady(res) => self.answer(Call::DownloadReady, Answer::Done(res)),
            ServerCommand::CancelLocalChart(res) => self.answer(Call::CancelLocalChart, Answer::Done(res)),
            ServerCommand::CancelDownloadReady(res) => self.answer(Call::CancelDownloadReady, Answer::Done(res)),
            ServerCommand::UploadChart(res) => self.answer(Call::UploadChart, Answer::Done(res)),
        }
    }
}

/// Removing a key and taking what the values mean commute.
proof fn lemma_without_models<V: BinaryData>(s: Seq<(i32, V)>, k: i32)
    ensures
        table::value_models(table::without(s, k)) == table::without(table::value_models(s), k),
{
    table::lemma_find(s, k);
    table::lemma_find_is(table::value_models(s), k, table::find(s, k));
    assert(table::value_models(table::without(s, k)) =~= table::without(
        table::value_models(s),
        k,
    ));
}

/// The requests of a client.
impl Client {
    /// Asks for a room of one's own.
    pub fn create_room(&mut self, id: RoomId) -> (res: ClientCommand)
        requires
            old(self).wf(),
        ensures
            final(self).wf(),
            final(self)@ == requested(old(self)@, Call::CreateRoom),
            res.model() == (ClientCommandModel::CreateRoom { id: id@ }),
    {
        self.register(Call::CreateRoom);
        ClientCommand::CreateRoom { id }
    }

    /// Asks to join a room.
    pub fn join_room(&mut self, id: RoomId, monitor: bool) -> (res: ClientCommand)
        requires
            old(self).wf(),
        ensures
            final(self).wf(),
            final(self)@ == requested(old(self)@, Call::JoinRoom),
            res.model() == (ClientCommandModel::JoinRoom { id: id@, monitor }),
    {
        self.register(Call::JoinRoom);
        ClientCommand::JoinRoom { id, monitor }
    }

    /// Asks to leave the room.
    pub fn leave_room(&mut self) -> (res: ClientCommand)
        requires
            old(self).wf(),
        ensures
            final(self).wf(),
            final(self)@ == requested(old(self)@, Call::LeaveRoom),
            res.model() == ClientCommandModel::LeaveRoom,
    {
        self.register(Call::LeaveRoom);
        ClientCommand::LeaveRoom
    }

    /// Asks to lock or open the room.
    pub fn lock_room(&mut self, lock: bool) -> (res: ClientCommand)
        requires
            old(self).wf(),
        ensures
            final(self).wf(),
            final(self)@ == requested(old(self)@, Call::LockRoom),
            res.model() == (ClientCommandModel::LockRoom { lock }),
    {
        self.register(Call::LockRoom);
        ClientCommand::LockRoom { lock }
    }

    /// Asks for turns as the host, or for none.
    pub fn cycle_room(&mut self, cycle: bool) -> (res: ClientCommand)
        requires
            old(self).wf(),
        ensures
            final(self).wf(),
            final(self)@ == requested(old(self)@, Call::CycleRoom),
            res.model() == (ClientCommandModel::CycleRoom { cycle }),
    {
        self.register(Call::CycleRoom);
        ClientCommand::CycleRoom { cycle }
    }

    /// Asks for a chart of the service.
    pub fn select_chart(&mut self, id: i32) -> (res: ClientCommand)
        requires
            old(self).wf(),
        ensures
            final(self).wf(),
            final(self)@ == requested(old(self)@, Call::SelectChart),
            res.model() == (ClientCommandModel::SelectChart { id }),
    {
        self.register(Call::SelectChart);
        ClientCommand::SelectChart { id }
    }

    /// Asks to go back to a chart of the service.
    pub fn select_online_chart(&mut self, id: i32) -> (res: ClientCommand)
        requires
            old(self).wf(),
        ensures
            final(self).wf(),
            final(self)@ == requested(old(self)@, Call::SelectOnlineChart),
            res.model() == (ClientCommandModel::SelectOnlineChart { id }),
    {
        self.register(Call::SelectOnlineChart);
        ClientCommand::SelectOnlineChart { id }
    }

    /// Asks to hand out the shared chart.
    pub fn send_chart(&mut self, addr: String, port: u16) -> (res: ClientCommand)
        requires
            old(self).wf(),
        ensures
            final(self).wf(),
            final(self)@ == requested(old(self)@, Call::SendChart),
            res.model() == (ClientCommandModel::SendChart { addr: addr@, port }),
    {
        self.register(Call::SendChart);
        ClientCommand::SendChart { addr, port }
    }

    /// Tells that the shared chart is there.
    pub fn download_ready(&mut self) -> (res: ClientCommand)
        requires
            old(self).wf(),
        ensures
            final(self).wf(),
            final(self)@ == requested(old(self)@, Call::DownloadReady),
            res.model() == ClientCommandModel::DownloadReady,
    {
        self.register(Call::DownloadReady);
        ClientCommand::DownloadReady
    }

    /// Asks to stop sharing.
    pub fn cancel_local_chart(&mut self) -> (res: ClientCommand)
        requires
            old(self).wf(),
        ensures
            final(self).wf(),
            final(self)@ == requested(old(self)@, Call::CancelLocalChart),
            res.model() == ClientCommandModel::CancelLocalChart,
    {
        self.register(Call::CancelLocalChart);
        ClientCommand::CancelLocalChart
    }

    /// Takes back that the shared chart is there.
    pub fn cancel_download_ready(&mut self) -> (res: ClientCommand)
        requires
            old(self).wf(),
        ensures
            final(self).wf(),
            final(self)@ == requested(old(self)@, Call::CancelDownloadReady),
            res.model() == ClientCommandModel::CancelDownloadReady,
    {
        self.register(Call::CancelDownloadReady);
        ClientCommand::CancelDownloadReady
    }

    /// Asks for a game.
    pub fn request_start(&mut self) -> (res: ClientCommand)
        requires
            old(self).wf(),
        ensures
            final(self).wf(),
            final(self)@ == requested(old(self)@, Call::RequestStart),
            res.model() == ClientCommandModel::RequestStart,
    {
        self.register(Call::RequestStart);
        ClientCommand::RequestStart
    }

    /// Tells that one is ready.
    pub fn ready(&mut self) -> (res: ClientCommand)
        requires
            old(self).wf(),
        ensures
            final(self).wf(),
            final(self)@ == requested(old(self)@, Call::Ready),
            res.model() == ClientCommandModel::Ready,
    {
        self.register(Call::Ready);
        ClientCommand::Ready
    }

    /// Takes back that one is ready.
    pub fn cancel_ready(&mut self) -> (res: ClientCommand)
        requires
            old(self).wf(),
        ensures
            final(self).wf(),
            final(self)@ == requested(old(self)@, Call::CancelReady),
            res.model() == ClientCommandModel::CancelReady,
    {
        self.register(Call::CancelReady);
        ClientCommand::CancelReady
    }

    /// Tells the result of a game.
    pub fn played(&mut self, id: i32) -> (res: ClientCommand)
        requires
            old(self).wf(),
        ensures
            final(self).wf(),
            final(self)@ == requested(old(self)@, Call::Played),
            res.model() == (ClientCommandModel::Played { id }),
    {
        self.register(Call::Played);
        ClientCommand::Played { id }
    }

    /// Gives a game up.
    pub fn abort(&mut self) -> (res: ClientCommand)
        requires
            old(self).wf(),
        ensures
            final(self).wf(),
            final(self)@ == requested(old(self)@, Call::Abort),
            res.model() == ClientCommandModel::Abort,
    {
        self.register(Call::Abort);
        ClientCommand::Abort
    }

    /// Tells who one is.
    pub fn authenticate(&mut self, token: String) -> (res: Result<ClientCommand, BinError>)
        requires
            old(self).wf(),
        ensures
            final(self).wf(),
            if encode_utf8(token@).len() <= 32 {
                &&& final(self)@ == requested(old(self)@, Call::Authenticate)
                &&& res matches Ok(c)
                &&& c.model() == (ClientCommandModel::Authenticate { token: token@ })
            } else {
                final(self)@ == old(self)@ && (res matches Err(e) && e == BinError::StringTooLong)
            },
    {
        let token: Varchar<32> = match Varchar::<32>::try_from(token) {
            Ok(v) => v,
            Err(e) => {
                return Err(e);
            },
        };
        self.register(Call::Authenticate);
        Ok(ClientCommand::Authenticate { token })
    }

    /// Says something.
    pub fn chat(&mut self, message: String) -> (res: Result<ClientCommand, BinError>)
        requires
            old(self).wf(),
        ensures
            final(self).wf(),
            if encode_utf8(message@).len() <= 200 {
                &&& final(self)@ == requested(old(self)@, Call::Chat)
                &&& res matches Ok(c)
                &&& c.model() == (ClientCommandModel::Chat { message: message@ })
            } else {
                final(self)@ == old(self)@ && (res matches Err(e) && e == BinError::StringTooLong)
            },
    {
        let message: Varchar<200> = match Varchar::<200>::try_from(message) {
            Ok(v) => v,
            Err(e) => {
                return Err(e);
            },
        };
        self.register(Call::Chat);
        Ok(ClientCommand::Chat { message })
    }

    /// Shares a chart of one's own.
    pub fn select_local_chart(&mut self, id: String, name: String) -> (res: Result<ClientCommand, BinError>)
        requires
            old(self).wf(),
        ensures
            final(self).wf(),
            if encode_utf8(id@).len() <= 40 && encode_utf8(name@).len() <= 64 {
                &&& final(self)@ == requested(old(self)@, Call::SelectLocalChart)
                &&& res matches Ok(c)
                &&& c.model() == (ClientCommandModel::SelectLocalChart { id: id@, name: name@ })
            } else {
                final(self)@ == old(self)@ && (res matches Err(e) && e == BinError::StringTooLong)
            },
    {
        let id: Varchar<40> = match Varchar::<40>::try_from(id) {
            Ok(v) => v,
            Err(e) => {
                return Err(e);
            },
        };
        let name: Varchar<64> = match Varchar::<64>::try_from(name) {
            Ok(v) => v,
            Err(e) => {
                return Err(e);
            },
        };
        self.register(Call::SelectLocalChart);
        Ok(ClientCommand::SelectLocalChart { id, name })
    }

    /// Leaves the shared chart with the server.
    pub fn upload_chart(&mut self, id: String, data: Vec<u8>) -> (res: Result<ClientCommand, BinError>)
        requires
            old(self).wf(),
        ensures
            final(self).wf(),
            if encode_utf8(id@).len() <= 40 {
                &&& final(self)@ == requested(old(self)@, Call::UploadChart)
                &&& res matches Ok(c)
                &&& c.model() == (ClientCommandModel::UploadChart { id: id@, data: data.model() })
            } else {
                final(self)@ == old(self)@ && (res matches Err(e) && e == BinError::StringTooLong)
            },
    {
        let id: Varchar<40> = match Varchar::<40>::try_from(id) {
            Ok(v) => v,
            Err(e) => {
                return Err(e);
            },
        };
        self.register(Call::UploadChart);
        Ok(ClientCommand::UploadChart { id, data })
    }

    /// Asks for the shared chart.
    pub fn download_chart(&mut self, id: String) -> (res: Result<ClientCommand, BinError>)
        requires
            old(self).wf(),
        ensures
            final(self).wf(),
            if encode_utf8(id@).len() <= 40 {
                &&& final(self)@ == requested(old(self)@, Call::DownloadChart)
                &&& res matches Ok(c)
                &&& c.model() == (ClientCommandModel::DownloadChart { id: id@ })
            } else {
                final(self)@ == old(self)@ && (res matches Err(e) && e == BinError::StringTooLong)
            },
    {
        let id: Varchar<40> = match Varchar::<40>::try_from(id) {
            Ok(v) => v,
            Err(e) => {
                return Err(e);
            },
        };
        self.register(Call::DownloadChart);
        Ok(ClientCommand::DownloadChart { id })
    }

}

/// The room that a client has just made.
pub open spec fn own_room(id: Seq<char>, me: UserInfoModel) -> ClientRoomStateModel {
    ClientRoomStateModel {
        id,
        state: RoomState::SelectChart(None),
        live: false,
        locked: false,
        cycle: false,
        is_host: true,
        is_ready: false,
        users: seq![(me.id, me)],
    }
}

/// The room that a client has just joined.
pub open spec fn joined_room(id: Seq<char>, resp: JoinRoomResponseModel) -> ClientRoomStateModel {
    ClientRoomStateModel {
        id,
        state: resp.state,
        live: resp.live,
        locked: false,
        cycle: false,
        is_host: false,
        is_ready: false,
        users: room::info_table(resp.users),
    }
}

/// What a client learns from the answers to its requests.
impl Client {
    /// The server knows who one is.
    pub fn authenticated(&mut self, me: UserInfo, room: Option<ClientRoomState>)
        requires
            old(self).wf(),
        ensures
            final(self).wf(),
            final(self)@ == (ClientModel {
                me: Some(me.model()),
                room: room.model(),
                ..old(self)@
            }),
    {
        self.me = Some(me);
        self.room = room;
    }

    /// The room of one's own is there.
    pub fn room_created(&mut self, id: RoomId)
        requires
            old(self).wf(),
            old(self)@.me is Some,
        ensures
            final(self).wf(),
            old(self)@.me matches Some(me) ==> final(self)@ == (ClientModel {
                room: Some(own_room(id@, me)),
                ..old(self)@
            }),
    {
        if let Some(me) = &self.me {
            let user: UserInfo = me.clone();
            let mut users: Table<i32, UserInfo> = Table::new();
            proof {
                table::lemma_put_models(users@, user.id, user);
                assert(table::value_models(users@) =~= Seq::empty());
                assert(table::put(Seq::empty(), user.id, user.model()) =~= seq![
                    (user.id, user.model()),
                ]);
            }
            let _ = users.insert(user.id, user);
            self.room = Some(
                ClientRoomState {
                    id,
                    state: RoomState::default(),
                    live: false,
                    locked: false,
                    cycle: false,
                    is_host: true,
                    is_ready: false,
                    users,
                },
            );
        }
    }

    /// One is in the room.
    pub fn room_joined(&mut self, id: RoomId, resp: JoinRoomResponse)
        requires
            old(self).wf(),
        ensures
            final(self).wf(),
            final(self)@ == (ClientModel {
                room: Some(joined_room(id@, resp.model())),
                ..old(self)@
            }),
    {
        let mut users: Table<i32, UserInfo> = Table::new();
        let ghost all = resp.users.model();
        let mut i: usize = 0;
        assert(all.take(0) =~= Seq::empty());
        assert(users.model() =~= Seq::empty());
        while i < resp.users.len()
            invariant
                i <= resp.users.len(),
                all == resp.users.model(),
                users.model() == room::info_table(all.take(i as int)),
            decreases resp.users.len() - i,
        {
            let info: UserInfo = resp.users[i].clone();
            proof {
                assert(all.take(i + 1).drop_last() =~= all.take(i as int));
                assert(all[i as int] == info.model());
                table::lemma_put_models(users@, info.id, info);
            }
            let _ = users.insert(info.id, info);
            i += 1;
        }
        assert(all.take(i as int) =~= all);
        self.room = Some(
            ClientRoomState {
                id,
                state: resp.state,
                live: resp.live,
                locked: false,
                cycle: false,
                is_host: false,
                is_ready: false,
                users,
            },
        );
    }

    /// One is out of the room.
    pub fn room_left(&mut self)
        requires
            old(self).wf(),
        ensures
            final(self).wf(),
            final(self)@ == (ClientModel { room: None, ..old(self)@ }),
    {
        self.room = None;
    }

    /// One is ready, or no longer.
    pub fn set_ready(&mut self, is_ready: bool)
        requires
            old(self).wf(),
            old(self)@.room is Some,
        ensures
            final(self).wf(),
            old(self)@.room matches Some(r) ==> final(self)@ == (ClientModel {
                room: Some(ClientRoomStateModel { is_ready, ..r }),
                ..old(self)@
            }),
    {
        if let Some(room) = &mut self.room {
            room.is_ready = is_ready;
        }
    }

    /// A ping was answered in time, or not.
    pub fn ping_done(&mut self, in_time: bool)
        requires
            old(self).wf(),
        ensures
            final(self).wf(),
            final(self)@ == (ClientModel {
                ping_fails: if in_time {
                    0
                } else if old(self)@.ping_fails == u8::MAX {
                    0
                } else {
                    (old(self)@.ping_fails + 1) as u8
                },
                ..old(self)@
            }),
    {
        self.ping_fail_count = if in_time || self.ping_fail_count == u8::MAX {
            0
        } else {
            self.ping_fail_count + 1
        };
    }

    /// How many pings in a row were not answered in time.
    pub fn ping_fail_count(&self) -> (res: u8)
        ensures
            res == self@.ping_fails,
    {
        self.ping_fail_count
    }

    /// Who one is.
    pub fn me(&self) -> (res: Option<UserInfo>)
        ensures
            res.model() == self@.me,
    {
        match &self.me {
            Some(me) => Some(me.clone()),
            None => None,
        }
    }

    /// The name of someone in the room, or a question mark.
    pub fn user_name(&self, id: i32) -> (res: String)
        ensures
            res@ == (match name_in(self@, id) {
                Some(name) => name,
                None => "?"@,
            }),
    {
        match self.user_name_opt(id) {
            Some(name) => name,
            None => "?".to_owned(),
        }
    }

    /// The name of someone in the room.
    pub fn user_name_opt(&self, id: i32) -> (res: Option<String>)
        ensures
            res.model() == name_in(self@, id),
    {
        match &self.room {
            Some(room) => {
                proof {
                    table::lemma_find(room.users@, id);
                    table::lemma_find_is(
                        table::value_models(room.users@),
                        id,
                        table::find(room.users@, id),
                    );
                }
                match room.users.get(&id) {
                    Some(user) => Some(user.name.clone()),
                    None => None,
                }
            },
            None => None,
        }
    }

    /// What happened in the room since this was last asked.
    pub fn blocking_take_messages(&mut self) -> (res: Vec<Message>)
        requires
            old(self).wf(),
        ensures
            final(self).wf(),
            res.model() == old(self)@.messages,
            final(self)@ == (ClientModel { messages: Seq::empty(), ..old(self)@ }),
    {
        let mut res: Vec<Message> = Vec::new();
        res.append(&mut self.messages);
        assert(res@ =~= old(self).messages@);
        assert(self@.messages =~= Seq::empty());
        res
    }

    /// What the server wanted about a shared chart since this was last asked.
    pub fn blocking_take_local_chart_events(&mut self) -> (res: Vec<LocalChartEvent>)
        requires
            old(self).wf(),
        ensures
            final(self).wf(),
            replay::list_views(res@) == old(self)@.local_chart_events,
            final(self)@ == (ClientModel { local_chart_events: Seq::empty(), ..old(self)@ }),
    {
        let mut res: Vec<LocalChartEvent> = Vec::new();
        res.append(&mut self.local_chart_events);
        assert(res@ =~= old(self).local_chart_events@);
        assert(self@.local_chart_events =~= Seq::empty());
        res
    }

    /// The room.
    pub fn blocking_state(&self) -> (res: &Option<ClientRoomState>)
        ensures
            res.model() == self@.room,
    {
        &self.room
    }

    /// The id of the room.
    pub fn blocking_room_id(&self) -> (res: Option<RoomId>)
        ensures
            res.model() == (match self@.room {
                Some(r) => Some(r.id),
                None => None,
            }),
    {
        match &self.room {
            Some(room) => Some(room.id.clone()),
            None => None,
        }
    }

    /// What the room is doing.
    pub fn blocking_room_state(&self) -> (res: Option<RoomState>)
        ensures
            res == (match self@.room {
                Some(r) => Some(r.state),
                None => None,
            }),
    {
        match &self.room {
            Some(room) => Some(room.state),
            None => None,
        }
    }

    /// Whether one is the host of the room.
    pub fn blocking_is_host(&self) -> (res: Option<bool>)
        ensures
            res == (match self@.room {
                Some(r) => Some(r.is_host),
                None => None,
            }),
    {
        match &self.room {
            Some(room) => Some(room.is_host),
            None => None,
        }
    }

    /// Whether one is ready.
    pub fn blocking_is_ready(&self) -> (res: Option<bool>)
        ensures
            res == (match self@.room {
                Some(r) => Some(r.is_ready),
                None => None,
            }),
    {
        match &self.room {
            Some(room) => Some(room.is_ready),
            None => None,
        }
    }
}

/// The name of someone in the room of a client.
pub open spec fn name_in(c: ClientModel, id: i32) -> Option<Seq<char>> {
    match c.room {
        Some(r) => match table::lookup(r.users, id) {
            Some(u) => Some(u.name),
            None => None,
        },
        None => None,
    }
}

/// An answer of the server is the answer to the request it is named after, as it came, and to no
/// other; that request is no longer under way, and nothing else changes.
pub proof fn law_answers(
    c: ClientModel,
    r: Result<(), Seq<char>>,
    a: Result<(UserInfoModel, Option<ClientRoomStateModel>), Seq<char>>,
    j: Result<JoinRoomResponseModel, Seq<char>>,
    d: Result<Seq<u8>, Seq<char>>,
)
    ensures
        processed(c, ServerCommandModel::Chat(r)) == (
            ClientModel { pending: c.pending.remove(Call::Chat), ..c },
            HeardModel::Answer(Call::Chat, AnswerModel::Done(r)),
        ),
        processed(c, ServerCommandModel::CreateRoom(r)) == (
            ClientModel { pending: c.pending.remove(Call::CreateRoom), ..c },
            HeardModel::Answer(Call::CreateRoom, AnswerModel::Done(r)),
        ),
        processed(c, ServerCommandModel::LeaveRoom(r)) == (
            ClientModel { pending: c.pending.remove(Call::LeaveRoom), ..c },
            HeardModel::Answer(Call::LeaveRoom, AnswerModel::Done(r)),
        ),
        processed(c, ServerCommandModel::LockRoom(r)) == (
            ClientModel { pending: c.pending.remove(Call::LockRoom), ..c },
            HeardModel::Answer(Call::LockRoom, AnswerModel::Done(r)),
        ),
        processed(c, ServerCommandModel::CycleRoom(r)) == (
            ClientModel { pending: c.pending.remove(Call::CycleRoom), ..c },
            HeardModel::Answer(Call::CycleRoom, AnswerModel::Done(r)),
        ),
        processed(c, ServerCommandModel::SelectChart(r)) == (
            ClientModel { pending: c.pending.remove(Call::SelectChart), ..c },
            HeardModel::Answer(Call::SelectChart, AnswerModel::Done(r)),
        ),
        processed(c, ServerCommandModel::RequestStart(r)) == (
            ClientModel { pending: c.pending.remove(Call::RequestStart), ..c },
            HeardModel::Answer(Call::RequestStart, AnswerModel::Done(r)),
        ),
        processed(c, ServerCommandModel::Ready(r)) == (
            ClientModel { pending: c.pending.remove(Call::Ready), ..c },
            HeardModel::Answer(Call::Ready, AnswerModel::Done(r)),
        ),
        processed(c, ServerCommandModel::CancelReady(r)) == (
            ClientModel { pending: c.pending.remove(Call::CancelReady), ..c },
            HeardModel::Answer(Call::CancelReady, AnswerModel::Done(r)),
        ),
        processed(c, ServerCommandModel::Played(r)) == (
            ClientModel { pending: c.pending.remove(Call::Played), ..c },
            HeardModel::Answer(Call::Played, AnswerModel::Done(r)),
        ),
        processed(c, ServerCommandModel::Abort(r)) == (
            ClientModel { pending: c.pending.remove(Call::Abort), ..c },
            HeardModel::Answer(Call::Abort, AnswerModel::Done(r)),
        ),
        processed(c, ServerCommandModel::SelectLocalChart(r)) == (
            ClientModel { pending: c.pending.remove(Call::SelectLocalChart), ..c },
            HeardModel::Answer(Call::SelectLocalChart, AnswerModel::Done(r)),
        ),
        processed(c, ServerCommandModel::SelectOnlineChart(r)) == (
            ClientModel { pending: c.pending.remove(Call::SelectOnlineChart), ..c },
            HeardModel::Answer(Call::SelectOnlineChart, AnswerModel::Done(r)),
        ),
        processed(c, ServerCommandModel::SendChart(r)) == (
            ClientModel { pending: c.pending.remove(Call::SendChart), ..c },
            HeardModel::Answer(Call::SendChart, AnswerModel::Done(r)),
        ),
        processed(c, ServerCommandModel::DownloadReady(r)) == (
            ClientModel { pending: c.pending.remove(Call::DownloadReady), ..c },
            HeardModel::Answer(Call::DownloadReady, AnswerModel::Done(r)),
        ),
        processed(c, ServerCommandModel::CancelLocalChart(r)) == (
            ClientModel { pending: c.pending.remove(Call::CancelLocalChart), ..c },
            HeardModel::Answer(Call::CancelLocalChart, AnswerModel::Done(r)),
        ),
        processed(c, ServerCommandModel::CancelDownloadReady(r)) == (
            ClientModel { pending: c.pending.remove(Call::CancelDownloadReady), ..c },
            HeardModel::Answer(Call::CancelDownloadReady, AnswerModel::Done(r)),
        ),
        processed(c, ServerCommandModel::UploadChart(r)) == (
            ClientModel { pending: c.pending.remove(Call::UploadChart), ..c },
            HeardModel::Answer(Call::UploadChart, AnswerModel::Done(r)),
        ),
        processed(c, ServerCommandModel::Authenticate(a)) == (
            ClientModel { pending: c.pending.remove(Call::Authenticate), ..c },
            HeardModel::Answer(Call::Authenticate, AnswerModel::Authenticated(a)),
        ),
        processed(c, ServerCommandModel::JoinRoom(j)) == (
            ClientModel { pending: c.pending.remove(Call::JoinRoom), ..c },
            HeardModel::Answer(Call::JoinRoom, AnswerModel::Joined(j)),
        ),
        processed(c, ServerCommandModel::DownloadChart(d)) == (
            ClientModel { pending: c.pending.remove(Call::DownloadChart), ..c },
            HeardModel::Answer(Call::DownloadChart, AnswerModel::Downloaded(d)),
        ),
        processed(c, ServerCommandModel::Pong) == (c, HeardModel::Pong),
{
}

/// What a client sees of a player who is watched: what it has seen before, and then what comes,
/// in order; of the others it sees what it saw.
pub proof fn law_seen(
    c: ClientModel,
    player: i32,
    frames: Seq<TouchFrameModel>,
    judges: Seq<JudgeEvent>,
    other: i32,
)
    ensures
        ({
            let d = processed(c, ServerCommandModel::Touches { player, frames }).0;
            let e = processed(c, ServerCommandModel::Judges { player, judges }).0;
            let before = if c.live_players.dom().contains(player) {
                c.live_players[player]
            } else {
                LiveModel { touch_frames: Seq::empty(), judge_events: Seq::empty() }
            };
            &&& d.live_players.dom().contains(player)
            &&& d.live_players[player].touch_frames == before.touch_frames + frames
            &&& d.live_players[player].judge_events == before.judge_events
            &&& e.live_players.dom().contains(player)
            &&& e.live_players[player].judge_events == before.judge_events + judges
            &&& e.live_players[player].touch_frames == before.touch_frames
            &&& other != player ==> d.live_players.dom().contains(other)
                == c.live_players.dom().contains(other) && d.live_players[other]
                == c.live_players[other] && e.live_players.dom().contains(other)
                == c.live_players.dom().contains(other) && e.live_players[other]
                == c.live_players[other]
            &&& d == (ClientModel { live_players: d.live_players, ..c })
            &&& e == (ClientModel { live_players: e.live_players, ..c })
        }),
{
}

/// Every message is kept, in order, and the room of a client follows those that are about it: it
/// is locked or open, takes turns or not, and is without those who have left.
pub proof fn law_messages(c: ClientModel, m: MessageModel, r: ClientRoomStateModel, other: i32)
    requires
        c.room == Some(r),
        table::distinct(r.users),
    ensures
        ({
            let (d, heard) = processed(c, ServerCommandModel::Message(m));
            &&& heard == HeardModel::Nothing
            &&& d.messages == c.messages.push(m)
            &&& d.me == c.me
            &&& d.pending == c.pending
            &&& d.live_players == c.live_players
            &&& d.room matches Some(q) && {
                &&& q.id == r.id
                &&& q.state == r.state
                &&& q.live == r.live
                &&& q.is_host == r.is_host
                &&& q.is_ready == r.is_ready
                &&& q.locked == (match m {
                    MessageModel::LockRoom { lock } => lock,
                    _ => r.locked,
                })
                &&& q.cycle == (match m {
                    MessageModel::CycleRoom { cycle } => cycle,
                    _ => r.cycle,
                })
                &&& match m {
                    MessageModel::LeaveRoom { user, .. } => table::lookup(q.users, user) is None
                        && (other != user ==> table::lookup(q.users, other) == table::lookup(
                        r.users,
                        other,
                    )),
                    _ => q.users == r.users,
                }
            }
        }),
{
    if let MessageModel::LeaveRoom { user, .. } = m {
        table::lemma_without_lookup(r.users, user, other);
    }
}

/// The room of a client follows what the server says of it: what it is doing, who its host is,
/// and who comes in.
pub proof fn law_room_followed(
    c: ClientModel,
    r: ClientRoomStateModel,
    state: RoomState,
    is_host: bool,
    user: UserInfoModel,
    other: i32,
)
    requires
        c.room == Some(r),
    ensures
        processed(c, ServerCommandModel::ChangeState(state)).0.room == Some(
            ClientRoomStateModel { state, is_ready: r.is_host, ..r },
        ),
        processed(c, ServerCommandModel::ChangeHost(is_host)).0 == (ClientModel {
            room: Some(ClientRoomStateModel { is_host, ..r }),
            ..c
        }),
        processed(c, ServerCommandModel::OnJoinRoom(user)).0.room matches Some(q) && {
            &&& q.live == (r.live || user.monitor)
            &&& table::lookup(q.users, user.id) == Some(user)
            &&& other != user.id ==> table::lookup(q.users, other) == table::lookup(r.users, other)
            &&& q == (ClientRoomStateModel { live: q.live, users: q.users, ..r })
        },
{
    table::lemma_put_lookup(r.users, user.id, user, user.id);
    table::lemma_put_lookup(r.users, user.id, user, other);
}

/// What the server wants about a shared chart is kept, in order, as it came.
pub proof fn law_chart_events(
    c: ClientModel,
    on: bool,
    host: i32,
    host_name: Seq<char>,
    addr: Seq<char>,
    port: u16,
    id: Seq<char>,
    name: Seq<char>,
)
    ensures
        processed(
            c,
            ServerCommandModel::ChangeLocalChart { local: on, chart_id: id },
        ).0.local_chart_events == c.local_chart_events.push(
            LocalChartModel::ChangeLocalChart { local: on, chart_id: id },
        ),
        processed(
            c,
            ServerCommandModel::StartServing { chart_id: id, chart_name: name },
        ).0.local_chart_events == c.local_chart_events.push(
            LocalChartModel::StartServing { chart_id: id, chart_name: name },
        ),
        processed(
            c,
            ServerCommandModel::StartDownload {
                host_id: host,
                host_name,
                addr,
                port,
                chart_id: id,
                chart_name: name,
            },
        ).0.local_chart_events == c.local_chart_events.push(
            LocalChartModel::StartDownload {
                host_id: host,
                host_name,
                addr,
                port,
                chart_id: id,
                chart_name: name,
            },
        ),
        processed(c, ServerCommandModel::HostReady).0.local_chart_events
            == c.local_chart_events.push(LocalChartModel::HostReady),
        processed(c, ServerCommandModel::LocalChartCanceled).0.local_chart_events
            == c.local_chart_events.push(LocalChartModel::Canceled),
{
}

/// A client who has made a room is in it alone, as its host, at choosing a chart.
pub proof fn law_own_room(id: Seq<char>, me: UserInfoModel, other: i32)
    ensures
        ({
            let r = own_room(id, me);
            &&& r.id == id
            &&& r.is_host
            &&& !r.is_ready
            &&& !r.locked
            &&& !r.cycle
            &&& !r.live
            &&& r.state == RoomState::SelectChart(None)
            &&& table::lookup(r.users, me.id) == Some(me)
            &&& other != me.id ==> table::lookup(r.users, other) is None
        }),
{
    let s = own_room(id, me).users;
    table::lemma_find_is(s, me.id, 0);
    if other != me.id {
        table::lemma_find_is(s, other, 1);
    }
}

/// A client who has come into a room is not its host, sees what it is doing and whether it is
/// live, and sees everybody in it, each under their own number.
pub proof fn law_joined_room(id: Seq<char>, resp: JoinRoomResponseModel, i: int)
    requires
        0 <= i < resp.users.len(),
        forall|j: int|
            i < j < resp.users.len() ==> (#[trigger] resp.users[j]).id != resp.users[i].id,
    ensures
        ({
            let r = joined_room(id, resp);
            &&& r.id == id
            &&& !r.is_host
            &&& !r.is_ready
            &&& r.state == resp.state
            &&& r.live == resp.live
            &&& table::lookup(r.users, resp.users[i].id) == Some(resp.users[i])
        }),
{
    lemma_info_table(resp.users, i);
}

/// Whoever stands last under a number is found by it.
proof fn lemma_info_table(s: Seq<UserInfoModel>, i: int)
    requires
        0 <= i < s.len(),
        forall|j: int| i < j < s.len() ==> (#[trigger] s[j]).id != s[i].id,
    ensures
        table::lookup(room::info_table(s), s[i].id) == Some(s[i]),
    decreases s.len(),
{
    let rest = s.drop_last();
    table::lemma_put_lookup(room::info_table(rest), s.last().id, s.last(), s[i].id);
    if i < rest.len() {
        assert(s[s.len() - 1].id != s[i].id);
        assert forall|j: int| i < j < rest.len() implies (#[trigger] rest[j]).id != rest[i].id by {
            assert(rest[j] == s[j]);
        }
        assert(rest[i] == s[i]);
        lemma_info_table(rest, i);
    }
}

/// When a room begins to do something else, what was seen of its players is over; everything else
/// that the client knows, but for the room, stays.
pub proof fn law_seen_anew(c: ClientModel, state: RoomState, player: i32)
    ensures
        ({
            let d = processed(c, ServerCommandModel::ChangeState(state)).0;
            &&& !d.live_players.dom().contains(player)
            &&& d.me == c.me
            &&& d.messages == c.messages
            &&& d.pending == c.pending
            &&& d.local_chart_events == c.local_chart_events
            &&& d.ping_fails == c.ping_fails
            &&& c.room is None ==> d.room is None
        }),
{
}

/// A client in no room stays in none, whatever it hears.
pub proof fn law_no_room_heard(c: ClientModel, cmd: ServerCommandModel)
    requires
        c.room is None,
    ensures
        processed(c, cmd).0.room is None,
        processed(c, cmd).0.me == c.me,
        processed(c, cmd).0.ping_fails == c.ping_fails,
{
}

/// A client knows the names of those who are in its room, and no others.
pub proof fn law_names_known(c: ClientModel, r: ClientRoomStateModel, id: i32, u: UserInfoModel)
    ensures
        c.room is None ==> name_in(c, id) is None,
        c.room == Some(r) && table::lookup(r.users, id) == Some(u) ==> name_in(c, id) == Some(
            u.name,
        ),
        c.room == Some(r) && table::lookup(r.users, id) is None ==> name_in(c, id) is None,
{
}

/// A request is under way from when it is made, beside those that were.
pub proof fn law_requested(c: ClientModel, call: Call, other: Call)
    ensures
        requested(c, call).pending.contains(call),
        other != call ==> requested(c, call).pending.contains(other) == c.pending.contains(other),
        requested(c, call) == (ClientModel { pending: requested(c, call).pending, ..c }),
{
}

/// An answer is heeded only while the request it answers is under way, and what is said of a room
/// only in one; everything else always is.
pub proof fn law_heeded(
    c: ClientModel,
    r: Result<(), Seq<char>>,
    j: Result<JoinRoomResponseModel, Seq<char>>,
    state: RoomState,
    lock: bool,
    user: i32,
    text: Seq<char>,
)
    ensures
        accepts(c, ServerCommandModel::Chat(r)) <==> c.pending.contains(Call::Chat),
        accepts(c, ServerCommandModel::CreateRoom(r)) <==> c.pending.contains(Call::CreateRoom),
        accepts(c, ServerCommandModel::JoinRoom(j)) <==> c.pending.contains(Call::JoinRoom),
        accepts(c, ServerCommandModel::LeaveRoom(r)) <==> c.pending.contains(Call::LeaveRoom),
        accepts(c, ServerCommandModel::Ready(r)) <==> c.pending.contains(Call::Ready),
        accepts(c, ServerCommandModel::Abort(r)) <==> c.pending.contains(Call::Abort),
        accepts(c, ServerCommandModel::Played(r)) <==> c.pending.contains(Call::Played),
        accepts(c, ServerCommandModel::ChangeState(state)) <==> c.room is Some,
        accepts(c, ServerCommandModel::ChangeHost(lock)) <==> c.room is Some,
        accepts(c, ServerCommandModel::Message(MessageModel::LockRoom { lock }))
            <==> c.room is Some,
        accepts(c, ServerCommandModel::Message(MessageModel::LeaveRoom { user, name: text }))
            <==> c.room is Some,
        accepts(c, ServerCommandModel::Message(MessageModel::Chat { user, content: text })),
        accepts(c, ServerCommandModel::Pong),
{
}

} // verus!
