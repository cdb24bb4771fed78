//! Who is connected, and what the rules want done about it.
//!
//! The rules of the rooms change the state of the server and leave [`Effect`]s behind:
//! commands to deliver, lines to log and tasks to run later.
use crate::bin::BinaryData;
use crate::command::{RoomId, ServerCommand, ServerCommandModel, UserInfo, UserInfoModel};
use crate::replay;
use crate::stats::{PlayerJudgementStats, StatsModel};
use crate::table;
use crate::table::Table;
use vstd::prelude::*;
use vstd::string::*;

verus! {

broadcast use table::group_views;

/// The bits of the 32-bit float below all numbers: no time of a game yet.
pub const NO_GAME_TIME: u32 = 0xff80_0000;

/// A user who is known to the server.
#[derive(Debug, PartialEq, Eq)]
pub struct User {
    pub id: i32,
    pub name: String,
    /// The language that the user's messages are in.
    pub lang: String,
    /// The connection of the user.
    pub session: Option<u128>,
    /// The room that the user is in.
    pub room: Option<u64>,
    /// Whether the user only watches.
    pub monitor: bool,
    /// How far the user's game is, as the bits of a 32-bit float.
    pub game_time: u32,
    /// Set while the user's connection is lost.
    pub dangle_mark: Option<u64>,
}

/// What a [`User`] means.
#[verifier::ext_equal]
pub struct UserModel {
    pub id: i32,
    pub name: Seq<char>,
    pub lang: Seq<char>,
    pub session: Option<u128>,
    pub room: Option<u64>,
    pub monitor: bool,
    pub game_time: u32,
    pub dangle_mark: Option<u64>,
}

impl View for User {
    type V = UserModel;

    open spec fn view(&self) -> UserModel {
        UserModel {
            id: self.id,
            name: self.name@,
            lang: self.lang@,
            session: self.session,
            room: self.room,
            monitor: self.monitor,
            game_time: self.game_time,
            dangle_mark: self.dangle_mark,
        }
    }
}

/// A user who has just come.
pub open spec fn new_user(id: i32, name: Seq<char>, lang: Seq<char>) -> UserModel {
    UserModel {
        id,
        name,
        lang,
        session: None,
        room: None,
        monitor: false,
        game_time: 0,
        dangle_mark: None,
    }
}

/// What others learn of a user.
pub open spec fn info(u: UserModel) -> UserInfoModel {
    UserInfoModel { id: u.id, name: u.name, monitor: u.monitor }
}

impl User {
    /// A user who has just come.
    pub fn new(id: i32, name: String, lang: String) -> (res: User)
        ensures
            res@ == new_user(id, name@, lang@),
    {
        User {
            id,
            name,
            lang,
            session: None,
            room: None,
            monitor: false,
            game_time: 0,
            dangle_mark: None,
        }
    }

    /// What others learn of this user.
    pub fn to_info(&self) -> (res: UserInfo)
        ensures
            res.model() == info(self@),
    {
        UserInfo { id: self.id, name: self.name.clone(), monitor: self.monitor }
    }

    /// The user has a connection again.
    pub fn set_session(&mut self, session: u128)
        ensures
            final(self)@ == (UserModel {
                session: Some(session),
                dangle_mark: None,
                ..old(self)@
            }),
    {
        self.session = Some(session);
        self.dangle_mark = None;
    }
}

/// A chart of the service.
#[derive(Debug, PartialEq, Eq)]
pub struct Chart {
    pub id: i32,
    pub name: String,
}

/// What a [`Chart`] means.
#[verifier::ext_equal]
pub struct ChartModel {
    pub id: i32,
    pub name: Seq<char>,
}

impl View for Chart {
    type V = ChartModel;

    open spec fn view(&self) -> ChartModel {
        ChartModel { id: self.id, name: self.name@ }
    }
}

/// The result of one game of one player, as the service keeps it. The accuracy and the two
/// deviations are the bits of 32-bit floats.
#[derive(Debug, Clone, Copy, PartialEq, Eq, Structural)]
pub struct Record {
    pub id: i32,
    pub player: i32,
    pub score: i32,
    pub perfect: i32,
    pub good: i32,
    pub bad: i32,
    pub miss: i32,
    pub max_combo: i32,
    pub accuracy: u32,
    pub full_combo: bool,
    pub std: u32,
    pub std_score: u32,
}

/// A line of a room's log. The accuracy of a finished game, the bits of a 32-bit float as a
/// fraction of one, is written out in percent between the two parts of its line.
#[derive(Debug, PartialEq, Eq)]
pub enum LogText {
    Plain(String),
    Played { head: String, accuracy: u32, tail: String },
}

/// What a [`LogText`] means.
#[verifier::ext_equal]
pub enum LogModel {
    Plain(Seq<char>),
    Played { head: Seq<char>, accuracy: u32, tail: Seq<char> },
}

impl View for LogText {
    type V = LogModel;

    open spec fn view(&self) -> LogModel {
        match *self {
            LogText::Plain(s) => LogModel::Plain(s@),
            LogText::Played { head, accuracy, tail } => LogModel::Played {
                head: head@,
                accuracy,
                tail: tail@,
            },
        }
    }
}

/// Milliseconds from the making of a room until its watchers come in.
pub const WATCHERS_JOIN_MILLIS: u64 = 500;

/// Milliseconds from the request to start until the watchers of a room are ready.
pub const WATCHERS_READY_MILLIS: u64 = 100;

/// Milliseconds from the end of a game until its replays are saved.
pub const SAVE_REPLAYS_MILLIS: u64 = 500;

/// Milliseconds from the loss of a user until they are given up.
pub const GIVE_UP_MILLIS: u64 = 10_000;

/// Milliseconds from the word that someone has to go until their connection is closed.
pub const FAREWELL_MILLIS: u64 = 500;

/// What is to be done outside of the rules.
#[derive(Debug, PartialEq, Eq)]
pub enum Effect {
    /// Deliver a command to each of some users, in order.
    Send { to: Vec<i32>, cmd: ServerCommand },
    /// Log a line of a room.
    Log { room: RoomId, text: LogText },
    /// Publish the totals of a room.
    Stats { room: RoomId, stats: Vec<PlayerJudgementStats> },
    /// Publish the list of rooms.
    RoomsChanged,
    /// Publish the list of sessions.
    SessionsChanged,
    /// After [`WATCHERS_JOIN_MILLIS`], let the watchers of a new room in.
    WatchersJoin { room: u64, creator: i32 },
    /// After [`WATCHERS_READY_MILLIS`], make the watchers of a room ready.
    WatchersReady { room: u64 },
    /// After [`SAVE_REPLAYS_MILLIS`], save the replays of a room.
    SaveReplays { room: RoomId },
    /// After [`GIVE_UP_MILLIS`], give a lost user up.
    GiveUp { user: i32, mark: u64 },
    /// Tell each of some users why they have to go, and after [`FAREWELL_MILLIS`] close their
    /// connections.
    Expel { users: Vec<i32>, text: String },
}

/// What an [`Effect`] means.
#[verifier::ext_equal]
pub enum EffectModel {
    Send { to: Seq<i32>, cmd: ServerCommandModel },
    Log { room: Seq<char>, text: LogModel },
    Stats { room: Seq<char>, stats: Seq<StatsModel> },
    RoomsChanged,
    SessionsChanged,
    WatchersJoin { room: u64, creator: i32 },
    WatchersReady { room: u64 },
    SaveReplays { room: Seq<char> },
    GiveUp { user: i32, mark: u64 },
    Expel { users: Seq<i32>, text: Seq<char> },
}

impl View for Effect {
    type V = EffectModel;

    open spec fn view(&self) -> EffectModel {
        match *self {
            Effect::Send { to, cmd } => EffectModel::Send { to: to@, cmd: cmd.model() },
            Effect::Log { room, text } => EffectModel::Log { room: room@, text: text@ },
            Effect::Stats { room, stats } => EffectModel::Stats {
                room: room@,
                stats: replay::list_views(stats@),
            },
            Effect::RoomsChanged => EffectModel::RoomsChanged,
            Effect::SessionsChanged => EffectModel::SessionsChanged,
            Effect::WatchersJoin { room, creator } => EffectModel::WatchersJoin { room, creator },
            Effect::WatchersReady { room } => EffectModel::WatchersReady { room },
            Effect::SaveReplays { room } => EffectModel::SaveReplays { room: room@ },
            Effect::GiveUp { user, mark } => EffectModel::GiveUp { user, mark },
            Effect::Expel { users, text } => EffectModel::Expel { users: users@, text: text@ },
        }
    }
}

/// The users, the charts that are being shared, and the effects so far.
#[derive(Debug, PartialEq, Eq)]
pub struct Hub {
    pub users: Table<i32, User>,
    pub chart_cache: Table<String, Vec<u8>>,
    pub out: Vec<Effect>,
}

/// What a [`Hub`] means.
#[verifier::ext_equal]
pub struct HubModel {
    pub users: Seq<(i32, UserModel)>,
    pub charts: Seq<(Seq<char>, Seq<u8>)>,
    pub out: Seq<EffectModel>,
}

impl View for Hub {
    type V = HubModel;

    open spec fn view(&self) -> HubModel {
        HubModel {
            users: table::views(self.users@),
            charts: table::views(self.chart_cache@),
            out: replay::list_views(self.out@),
        }
    }
}

/// One more effect.
pub open spec fn emitted(h: HubModel, e: EffectModel) -> HubModel {
    HubModel { out: h.out.push(e), ..h }
}

/// A command for one user.
pub open spec fn told(h: HubModel, user: i32, cmd: ServerCommandModel) -> HubModel {
    emitted(h, EffectModel::Send { to: seq![user], cmd })
}

/// A user changed, if there is one with this id.
pub open spec fn user_set(h: HubModel, id: i32, u: UserModel) -> HubModel {
    HubModel { users: table::put(h.users, id, u), ..h }
}

/// The users with the time of a player's game set back.
pub open spec fn time_reset(users: Seq<(i32, UserModel)>, id: i32) -> Seq<(i32, UserModel)> {
    match table::lookup(users, id) {
        Some(u) => table::put(users, id, UserModel { game_time: NO_GAME_TIME, ..u }),
        None => users,
    }
}

/// The users with the times of some players' games set back.
pub open spec fn times_reset(users: Seq<(i32, UserModel)>, ids: Seq<i32>) -> Seq<
    (i32, UserModel),
>
    decreases ids.len(),
{
    if ids.len() == 0 {
        users
    } else {
        time_reset(times_reset(users, ids.drop_last()), ids.last())
    }
}

impl Hub {
    /// Nobody there and nothing to do.
    pub fn new() -> (res: Hub)
        ensures
            res@ == (HubModel { users: Seq::empty(), charts: Seq::empty(), out: Seq::empty() }),
    {
        let res = Hub { users: Table::new(), chart_cache: Table::new(), out: Vec::new() };
        assert(res@.out =~= Seq::empty());
        res
    }

    /// One more effect.
    pub fn emit(&mut self, effect: Effect)
        ensures
            final(self)@ == emitted(old(self)@, effect@),
    {
        self.out.push(effect);
        assert(self@.out =~= old(self)@.out.push(effect@));
    }

    /// A command for one user.
    pub fn tell(&mut self, user: i32, cmd: ServerCommand)
        ensures
            final(self)@ == told(old(self)@, user, cmd.model()),
    {
        let mut to: Vec<i32> = Vec::new();
        to.push(user);
        assert(to@ =~= seq![user]);
        self.emit(Effect::Send { to, cmd });
    }

    /// The effects so far; none are left.
    pub fn take_effects(&mut self) -> (res: Vec<Effect>)
        ensures
            replay::list_views(res@) == old(self)@.out,
            final(self)@ == (HubModel { out: Seq::empty(), ..old(self)@ }),
    {
        let mut res: Vec<Effect> = Vec::new();
        res.append(&mut self.out);
        assert(res@ =~= old(self).out@);
        assert(self@.out =~= Seq::empty());
        res
    }

    /// Sets back the times of some players' games.
    pub fn reset_times(&mut self, ids: &Vec<i32>)
        ensures
            final(self)@ == (HubModel {
                users: times_reset(old(self)@.users, ids@),
                ..old(self)@
            }),
    {
        let ghost before = self@;
        let mut i: usize = 0;
        assert(ids@.take(0) =~= Seq::empty());
        while i < ids.len()
            invariant
                i <= ids.len(),
                self@ == (HubModel { users: times_reset(before.users, ids@.take(i as int)), ..before
                }),
            decreases ids.len() - i,
        {
            proof {
                assert(ids@.take(i + 1).drop_last() =~= ids@.take(i as int));
            }
            if let Some(user) = self.users.get_mut(&ids[i]) {
                user.game_time = NO_GAME_TIME;
            }
            i += 1;
        }
        assert(ids@.take(i as int) =~= ids@);
    }
}

} // verus!
