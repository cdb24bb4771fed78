//! The state of the server, and what happens to connections.
use crate::auth;
use crate::ban::{BanManager, BanModel};
use crate::hub;
use crate::hub::{HubModel, User, UserModel};
use crate::keys;
use crate::replay;
use crate::room;
use crate::room::{InternalRoomState, Room, RoomModel};
use crate::table;
use crate::table::Table;
use crate::world;
use crate::world::{World, WorldModel};
use vstd::prelude::*;
use vstd::string::*;

verus! {

broadcast use table::group_views;

/// The chart of a room, for the list of rooms.
#[derive(Debug, PartialEq, Eq)]
pub struct CurrentChart {
    pub id: i32,
    pub name: String,
}

/// A room, for the list of rooms.
#[derive(Debug, PartialEq, Eq)]
pub struct RoomInfo {
    pub id: String,
    pub player_count: usize,
    pub state: String,
    pub mode: String,
    pub locked: bool,
    pub players: Vec<String>,
    pub current_chart: Option<CurrentChart>,
    pub is_competition: bool,
}

/// What a [`RoomInfo`] means.
#[verifier::ext_equal]
pub struct RoomInfoModel {
    pub id: Seq<char>,
    pub player_count: nat,
    pub state: Seq<char>,
    pub mode: Seq<char>,
    pub locked: bool,
    pub players: Seq<Seq<char>>,
    pub current_chart: Option<(i32, Seq<char>)>,
    pub is_competition: bool,
}

/// The view of an optional chart.
pub open spec fn current_view(c: Option<CurrentChart>) -> Option<(i32, Seq<char>)> {
    match c {
        Some(c) => Some((c.id, c.name@)),
        None => None,
    }
}

impl View for RoomInfo {
    type V = RoomInfoModel;

    open spec fn view(&self) -> RoomInfoModel {
        RoomInfoModel {
            id: self.id@,
            player_count: self.player_count as nat,
            state: self.state@,
            mode: self.mode@,
            locked: self.locked,
            players: replay::list_views(self.players@),
            current_chart: current_view(self.current_chart),
            is_competition: self.is_competition,
        }
    }
}

/// The names of the players of a room.
pub open spec fn names_of(ids: Seq<i32>, users: Seq<(i32, UserModel)>) -> Seq<Seq<char>>
    decreases ids.len(),
{
    if ids.len() == 0 {
        Seq::empty()
    } else {
        let front = names_of(ids.drop_last(), users);
        match table::lookup(users, ids.last()) {
            Some(u) => front.push(u.name),
            None => front,
        }
    }
}

/// What a room is doing, in words.
pub open spec fn state_words(r: RoomModel) -> Seq<char> {
    if r.phase is Playing {
        "游戏中"@
    } else if r.locked {
        "已锁定"@
    } else {
        "准备中"@
    }
}

/// Whether the players of a room take turns, in words.
pub open spec fn mode_words(r: RoomModel) -> Seq<char> {
    if r.cycle {
        "循环模式"@
    } else {
        "普通模式"@
    }
}

/// The chart of a room.
pub open spec fn chart_of(r: RoomModel) -> Option<(i32, Seq<char>)> {
    match r.chart {
        Some(c) => Some((c.id, c.name)),
        None => None,
    }
}

/// A room, for the list of rooms; `admin` if it was made by an administrator.
pub open spec fn room_info(r: RoomModel, users: Seq<(i32, UserModel)>, admin: bool) -> RoomInfoModel {
    RoomInfoModel {
        id: r.id,
        player_count: names_of(r.users, users).len(),
        state: state_words(r),
        mode: if admin {
            "比赛模式"@
        } else {
            mode_words(r)
        },
        locked: r.locked,
        players: names_of(r.users, users),
        current_chart: chart_of(r),
        is_competition: admin,
    }
}

/// The list of rooms: those that can be found, in order.
pub open spec fn room_infos(
    rooms: Seq<(u64, RoomModel)>,
    users: Seq<(i32, UserModel)>,
    admins: Seq<(Seq<char>, bool)>,
) -> Seq<RoomInfoModel>
    decreases rooms.len(),
{
    if rooms.len() == 0 {
        Seq::empty()
    } else {
        let front = room_infos(rooms.drop_last(), users, admins);
        let r = rooms.last().1;
        if r.listed {
            front.push(room_info(r, users, table::holds(admins, r.id)))
        } else {
            front
        }
    }
}

impl Room {
    /// The names of the players.
    pub fn player_names(&self, users: &Table<i32, User>) -> (res: Vec<String>)
        ensures
            replay::list_views(res@) == names_of(self@.users, table::views(users@)),
    {
        let mut res: Vec<String> = Vec::new();
        let mut i: usize = 0;
        assert(self.users@.take(0) =~= Seq::empty());
        assert(replay::list_views(res@) =~= Seq::empty());
        while i < self.users.len()
            invariant
                i <= self.users.len(),
                replay::list_views(res@) == names_of(
                    self.users@.take(i as int),
                    table::views(users@),
                ),
            decreases self.users.len() - i,
        {
            assert(self.users@.take(i + 1).drop_last() =~= self.users@.take(i as int));
            if let Some(user) = users.get(&self.users[i]) {
                let name: String = user.name.clone();
                let ghost before = res@;
                res.push(name);
                assert(replay::list_views(res@) =~= replay::list_views(before).push(name@));
            }
            i += 1;
        }
        assert(self.users@.take(i as int) =~= self.users@);
        res
    }

    /// What the room is doing, in words.
    pub fn state_words(&self) -> (res: &'static str)
        ensures
            res@ == state_words(self@),
    {
        if matches!(self.state, InternalRoomState::Playing { .. }) {
            "游戏中"
        } else if self.locked {
            "已锁定"
        } else {
            "准备中"
        }
    }

    /// Whether the players take turns, in words.
    pub fn mode_words(&self) -> (res: &'static str)
        ensures
            res@ == mode_words(self@),
    {
        if self.cycle {
            "循环模式"
        } else {
            "普通模式"
        }
    }

    /// The chart of the room.
    pub fn current_chart(&self) -> (res: Option<CurrentChart>)
        ensures
            current_view(res) == chart_of(self@),
    {
        match &self.chart {
            Some(c) => Some(CurrentChart { id: c.id, name: c.name.clone() }),
            None => None,
        }
    }

    /// The room, for the list of rooms.
    pub fn info(&self, users: &Table<i32, User>, admin: bool) -> (res: RoomInfo)
        ensures
            res@ == room_info(self@, table::views(users@), admin),
    {
        let players: Vec<String> = self.player_names(users);
        let ghost names = names_of(self@.users, table::views(users@));
        assert(players@.len() == names.len());
        RoomInfo {
            id: self.id.to_string(),
            player_count: players.len(),
            state: self.state_words().to_owned(),
            mode: if admin {
                "比赛模式".to_owned()
            } else {
                self.mode_words().to_owned()
            },
            locked: self.locked,
            players,
            current_chart: self.current_chart(),
            is_competition: admin,
        }
    }
}

/// A session, for the list of sessions.
#[derive(Debug, PartialEq, Eq)]
pub struct SessionInfoResponse {
    pub user_id: i32,
    pub user_name: String,
    pub ip_address: String,
    /// Seconds since 1970.
    pub connect_time: u64,
}

/// Who is connected from where.
#[derive(Debug, PartialEq, Eq)]
pub struct SessionInfo {
    pub user_id: i32,
    pub user_name: String,
    pub ip_address: String,
    /// Seconds since 1970.
    pub connect_time: u64,
}

/// What a [`SessionInfo`] means.
#[verifier::ext_equal]
pub struct SessionModel {
    pub user_id: i32,
    pub user_name: Seq<char>,
    pub ip_address: Seq<char>,
    pub connect_time: u64,
}

impl View for SessionInfo {
    type V = SessionModel;

    open spec fn view(&self) -> SessionModel {
        SessionModel {
            user_id: self.user_id,
            user_name: self.user_name@,
            ip_address: self.ip_address@,
            connect_time: self.connect_time,
        }
    }
}

impl View for SessionInfoResponse {
    type V = SessionModel;

    open spec fn view(&self) -> SessionModel {
        SessionModel {
            user_id: self.user_id,
            user_name: self.user_name@,
            ip_address: self.ip_address@,
            connect_time: self.connect_time,
        }
    }
}

/// Where replays are uploaded to.
#[derive(Debug, PartialEq, Eq)]
pub struct UploadConfig {
    pub enabled: bool,
    pub api_url: String,
    pub api_token: String,
}

impl Default for UploadConfig {
    fn default() -> (res: UploadConfig)
        ensures
            !res.enabled,
            res.api_url@ == "http://183.66.27.19:40004/upload_direct"@,
            res.api_token@ == Seq::<char>::empty(),
    {
        let api_token: String = String::new();
        assert(api_token@ =~= Seq::empty());
        UploadConfig {
            enabled: false,
            api_url: "http://183.66.27.19:40004/upload_direct".to_owned(),
            api_token,
        }
    }
}

impl UploadConfig {
    /// Whether replays are uploaded: where it is wanted and there is a token.
    pub fn is_active(&self) -> (res: bool)
        ensures
            res == (self.enabled && self.api_token@.len() > 0),
    {
        self.enabled && self.api_token.as_str().unicode_len() > 0
    }
}

/// How the server is set up.
#[derive(Debug, PartialEq, Eq)]
pub struct ServerConfig {
    /// The users who may watch.
    pub monitors: Vec<i32>,
    pub web_port: Option<u16>,
    pub upload: UploadConfig,
}

impl Default for ServerConfig {
    fn default() -> (res: ServerConfig)
        ensures
            res.monitors@ == seq![2i32],
            res.web_port is None,
            !res.upload.enabled,
            res.upload.api_url@ == "http://183.66.27.19:40004/upload_direct"@,
            res.upload.api_token@ == Seq::<char>::empty(),
    {
        let mut monitors: Vec<i32> = Vec::new();
        monitors.push(2);
        assert(monitors@ =~= seq![2i32]);
        ServerConfig { monitors, web_port: None, upload: UploadConfig::default() }
    }
}

/// The chart of a room that is on line.
#[derive(Debug, PartialEq, Eq)]
pub struct OnlineRoomCurrentChart {
    pub id: i32,
    pub name: String,
}

/// A room that is on line.
#[derive(Debug, PartialEq, Eq)]
pub struct OnlineRoomInfo {
    pub id: String,
    pub player_count: usize,
    pub state: String,
    pub mode: String,
    pub locked: bool,
    pub players: Vec<String>,
    pub current_chart: Option<OnlineRoomCurrentChart>,
    /// When this was noted, in nanoseconds since 1970.
    pub created_at: u128,
}

/// What an [`OnlineRoomInfo`] means.
#[verifier::ext_equal]
pub struct OnlineModel {
    pub id: Seq<char>,
    pub player_count: nat,
    pub state: Seq<char>,
    pub mode: Seq<char>,
    pub locked: bool,
    pub players: Seq<Seq<char>>,
    pub current_chart: Option<(i32, Seq<char>)>,
    pub created_at: u128,
}

/// The view of an optional chart.
pub open spec fn online_chart_view(c: Option<OnlineRoomCurrentChart>) -> Option<(i32, Seq<char>)> {
    match c {
        Some(c) => Some((c.id, c.name@)),
        None => None,
    }
}

impl View for OnlineRoomInfo {
    type V = OnlineModel;

    open spec fn view(&self) -> OnlineModel {
        OnlineModel {
            id: self.id@,
            player_count: self.player_count as nat,
            state: self.state@,
            mode: self.mode@,
            locked: self.locked,
            players: replay::list_views(self.players@),
            current_chart: online_chart_view(self.current_chart),
            created_at: self.created_at,
        }
    }
}

/// A room that is on line.
pub open spec fn online_info(r: RoomModel, users: Seq<(i32, UserModel)>, now: u128) -> OnlineModel {
    OnlineModel {
        id: r.id,
        player_count: names_of(r.users, users).len(),
        state: state_words(r),
        mode: mode_words(r),
        locked: r.locked,
        players: names_of(r.users, users),
        current_chart: chart_of(r),
        created_at: now,
    }
}

/// The rooms that are on line, each under its id.
pub open spec fn online_table(
    rooms: Seq<(u64, RoomModel)>,
    users: Seq<(i32, UserModel)>,
    now: u128,
) -> Seq<(Seq<char>, OnlineModel)>
    decreases rooms.len(),
{
    if rooms.len() == 0 {
        Seq::empty()
    } else {
        let front = online_table(rooms.drop_last(), users, now);
        let r = rooms.last().1;
        if r.listed {
            table::put(front, r.id, online_info(r, users, now))
        } else {
            front
        }
    }
}

/// The times of activity with all rooms active now.
pub open spec fn activity_now(
    s: Seq<(Seq<char>, u128)>,
    rooms: Seq<(u64, RoomModel)>,
    now: u128,
) -> Seq<(Seq<char>, u128)>
    decreases rooms.len(),
{
    if rooms.len() == 0 {
        s
    } else {
        let front = activity_now(s, rooms.drop_last(), now);
        let r = rooms.last().1;
        if r.listed {
            table::put(front, r.id, now)
        } else {
            front
        }
    }
}

/// The whole seconds from one moment to another, both in nanoseconds; none backwards.
pub open spec fn seconds_between(then: u128, now: u128) -> int {
    if now >= then {
        (now - then) / 1_000_000_000
    } else {
        0
    }
}

/// Whether fewer than so many whole seconds have passed.
pub fn is_within(then: u128, now: u128, seconds: u64) -> (res: bool)
    ensures
        res == (seconds_between(then, now) < seconds),
{
    if now >= then {
        (now - then) / 1_000_000_000 < seconds as u128
    } else {
        0 < seconds
    }
}

/// Seconds that an address stays on the black list.
pub const BLACKLIST_SECONDS: u64 = 10;

/// Seconds after which a room without people is dropped.
pub const ROOM_IDLE_SECONDS: u64 = 600;

/// Seconds from one search for stale sessions to the next.
pub const STALE_SESSIONS_SECONDS: u64 = 300;

/// Seconds from one tidying of the black list to the next.
pub const BLACKLIST_TIDY_SECONDS: u64 = 60;

/// Seconds from one search for abandoned rooms to the next.
pub const ABANDONED_ROOMS_SECONDS: u64 = 60;

/// Everything that the server knows.
#[derive(Debug)]
pub struct ServerState {
    pub config: ServerConfig,
    pub world: World,
    /// The user of each connection.
    pub sessions: Table<u128, i32>,
    pub session_info: Table<u128, SessionInfo>,
    /// Addresses, and when each was put on the list, in nanoseconds since 1970.
    pub ip_blacklist: Table<String, u128>,
    pub ban_manager: BanManager,
    pub online_rooms: Table<String, OnlineRoomInfo>,
    /// When each room was last active, in nanoseconds since 1970.
    pub room_last_activity: Table<String, u128>,
    pub admin_created_rooms: Table<String, bool>,
    pub maintenance_mode: bool,
    pub maintenance_whitelist: Vec<i32>,
    pub public_ip: String,
    /// The mark of the next lost user.
    pub next_mark: u64,
}

/// What a [`ServerState`] means, apart from how it is set up.
#[verifier::ext_equal]
pub struct ServerModel {
    pub world: WorldModel,
    pub sessions: Seq<(u128, i32)>,
    pub infos: Seq<(u128, SessionModel)>,
    pub blacklist: Seq<(Seq<char>, u128)>,
    pub bans: Seq<(Seq<char>, BanModel)>,
    pub online: Seq<(Seq<char>, OnlineModel)>,
    pub activity: Seq<(Seq<char>, u128)>,
    pub admins: Seq<(Seq<char>, bool)>,
    pub maintenance: bool,
    pub whitelist: Seq<i32>,
    pub public_ip: Seq<char>,
    pub next_mark: u64,
}

impl View for ServerState {
    type V = ServerModel;

    open spec fn view(&self) -> ServerModel {
        ServerModel {
            world: self.world@,
            sessions: table::views(self.sessions@),
            infos: table::views(self.session_info@),
            blacklist: table::views(self.ip_blacklist@),
            bans: self.ban_manager@,
            online: table::views(self.online_rooms@),
            activity: table::views(self.room_last_activity@),
            admins: table::views(self.admin_created_rooms@),
            maintenance: self.maintenance_mode,
            whitelist: self.maintenance_whitelist@,
            public_ip: self.public_ip@,
            next_mark: self.next_mark,
        }
    }
}

/// A server that has just started.
pub open spec fn new_server() -> ServerModel {
    ServerModel {
        world: WorldModel {
            hub: HubModel { users: Seq::empty(), charts: Seq::empty(), out: Seq::empty() },
            rooms: Seq::empty(),
            next_room: 0,
            replays: Seq::empty(),
        },
        sessions: Seq::empty(),
        infos: Seq::empty(),
        blacklist: Seq::empty(),
        bans: Seq::empty(),
        online: Seq::empty(),
        activity: Seq::empty(),
        admins: Seq::empty(),
        maintenance: false,
        whitelist: Seq::empty(),
        public_ip: Seq::empty(),
        next_mark: 0,
    }
}

/// Whether an address is on the black list.
pub open spec fn blacklisted(s: Seq<(Seq<char>, u128)>, ip: Seq<char>, now: u128) -> bool {
    table::lookup(s, ip) matches Some(t) && seconds_between(t, now) < BLACKLIST_SECONDS
}

/// `Uuid::new_v4` of `uuid` gives a random number; which one is up to chance.
#[verifier::external_body]
fn random_id() -> (res: u128) {
    uuid::Uuid::new_v4().as_u128()
}

/// The last `n` hexadecimal digits of a number.
pub open spec fn hex_digits(v: nat, n: nat) -> Seq<char>
    decreases n,
{
    if n == 0 {
        Seq::empty()
    } else {
        hex_digits(v / 16, (n - 1) as nat).push(auth::hex_digit((v % 16) as int))
    }
}

/// The number of a connection as a text: its hexadecimal digits, in groups of eight, four, four,
/// four and twelve.
pub open spec fn id_text(id: u128) -> Seq<char> {
    let d = hex_digits(id as nat, 32);
    d.subrange(0, 8) + seq!['-'] + d.subrange(8, 12) + seq!['-'] + d.subrange(12, 16) + seq!['-']
        + d.subrange(16, 20) + seq!['-'] + d.subrange(20, 32)
}

/// `Uuid::to_string` of `uuid` writes a number, taken by `Uuid::from_u128`, as lower-case
/// hexadecimal digits in groups with hyphens between them.
#[verifier::external_body]
fn uuid_text(id: u128) -> (res: String)
    ensures
        res@ == id_text(id),
{
    uuid::Uuid::from_u128(id).to_string()
}

/// Sixteen to the power `n`.
pub open spec fn pow16(n: nat) -> nat
    decreases n,
{
    if n == 0 {
        1
    } else {
        16 * pow16((n - 1) as nat)
    }
}

/// So many digits tell numbers apart that have no more.
proof fn lemma_hex_digits(a: nat, b: nat, n: nat)
    requires
        a < pow16(n),
        b < pow16(n),
        hex_digits(a, n) == hex_digits(b, n),
    ensures
        a == b,
    decreases n,
{
    if n > 0 {
        let x = hex_digits(a / 16, (n - 1) as nat);
        let y = hex_digits(b / 16, (n - 1) as nat);
        assert(hex_digits(a, n).drop_last() =~= x);
        assert(hex_digits(b, n).drop_last() =~= y);
        assert(hex_digits(a, n).last() == auth::hex_digit((a % 16) as int));
        assert(hex_digits(b, n).last() == auth::hex_digit((b % 16) as int));
        lemma_hex_digits(a / 16, b / 16, (n - 1) as nat);
    }
}

/// So many digits are as long as that.
proof fn lemma_hex_len(v: nat, n: nat)
    ensures
        hex_digits(v, n).len() == n,
    decreases n,
{
    if n > 0 {
        lemma_hex_len(v / 16, (n - 1) as nat);
    }
}

/// Connections with different numbers have different texts, each of 36 characters.
pub proof fn law_id_text(a: u128, b: u128)
    ensures
        id_text(a).len() == 36,
        id_text(a) == id_text(b) ==> a == b,
{
    let d = hex_digits(a as nat, 32);
    let e = hex_digits(b as nat, 32);
    lemma_hex_len(a as nat, 32);
    lemma_hex_len(b as nat, 32);
    let s = id_text(a);
    if s == id_text(b) {
        let t = id_text(b);
        assert(d.subrange(0, 8) =~= s.subrange(0, 8) && e.subrange(0, 8) =~= t.subrange(0, 8));
        assert(d.subrange(8, 12) =~= s.subrange(9, 13) && e.subrange(8, 12) =~= t.subrange(9, 13));
        assert(d.subrange(12, 16) =~= s.subrange(14, 18) && e.subrange(12, 16) =~= t.subrange(14, 18));
        assert(d.subrange(16, 20) =~= s.subrange(19, 23) && e.subrange(16, 20) =~= t.subrange(19, 23));
        assert(d.subrange(20, 32) =~= s.subrange(24, 36) && e.subrange(20, 32) =~= t.subrange(24, 36));
        assert(d =~= d.subrange(0, 8) + d.subrange(8, 12) + d.subrange(12, 16) + d.subrange(16, 20)
            + d.subrange(20, 32));
        assert(e =~= e.subrange(0, 8) + e.subrange(8, 12) + e.subrange(12, 16) + e.subrange(16, 20)
            + e.subrange(20, 32));
        assert(pow16(32) == 0x1_0000_0000_0000_0000_0000_0000_0000_0000) by {
            reveal_with_fuel(pow16, 33);
        }
        lemma_hex_digits(a as nat, b as nat, 32);
    }
}

impl ServerState {
    /// A server that has just started.
    pub fn new(config: ServerConfig) -> (res: ServerState)
        ensures
            res@ == new_server(),
            keys::keyed(res@),
            res.config == config,
    {
        let res = ServerState {
            config,
            world: World::new(),
            sessions: Table::new(),
            session_info: Table::new(),
            ip_blacklist: Table::new(),
            ban_manager: BanManager::new(),
            online_rooms: Table::new(),
            room_last_activity: Table::new(),
            admin_created_rooms: Table::new(),
            maintenance_mode: false,
            maintenance_whitelist: Vec::new(),
            public_ip: String::new(),
            next_mark: 0,
        };
        assert(res@.public_ip =~= Seq::empty());
        assert(res@.whitelist =~= Seq::empty());
        res
    }

    /// The list of rooms.
    pub fn get_rooms_info_from_state(&self) -> (res: Vec<RoomInfo>)
        ensures
            replay::list_views(res@) == room_infos(
                self@.world.rooms,
                self@.world.hub.users,
                self@.admins,
            ),
    {
        let ghost rooms = self@.world.rooms;
        let mut res: Vec<RoomInfo> = Vec::new();
        let mut i: usize = 0;
        assert(rooms.take(0) =~= Seq::empty());
        assert(replay::list_views(res@) =~= Seq::empty());
        while i < self.world.rooms.len()
            invariant
                i <= self.world.rooms@.len(),
                rooms == self@.world.rooms,
                replay::list_views(res@) == room_infos(
                    rooms.take(i as int),
                    self@.world.hub.users,
                    self@.admins,
                ),
            decreases self.world.rooms@.len() - i,
        {
            let room = self.world.rooms.value(i);
            proof {
                assert(rooms.take(i + 1).drop_last() =~= rooms.take(i as int));
                assert(rooms[i as int].1 == room@);
            }
            if room.listed {
                let key: String = room.id.to_string();
                let admin: bool = self.admin_created_rooms.contains_key(&key);
                let info: RoomInfo = room.info(&self.world.hub.users, admin);
                let ghost before = res@;
                res.push(info);
                assert(replay::list_views(res@) =~= replay::list_views(before).push(info@));
            }
            i += 1;
        }
        assert(rooms.take(i as int) =~= rooms);
        res
    }

    /// Notes the rooms that are on line, and that all of them are active now.
    pub fn refresh_rooms(&mut self, now: u128)
        ensures
            final(self)@ == (ServerModel {
                online: online_table(old(self)@.world.rooms, old(self)@.world.hub.users, now),
                activity: activity_now(old(self)@.activity, old(self)@.world.rooms, now),
                ..old(self)@
            }),
            final(self).config == old(self).config,
            keys::keyed(old(self)@) ==> keys::keyed(final(self)@),
    {
        proof {
            if keys::keyed(self@) {
                keys::law_refreshed_keyed(self@.world.rooms, self@.world.hub.users, self@.activity, now);
            }
        }
        let ghost rooms = self@.world.rooms;
        let ghost users = self@.world.hub.users;
        let ghost start = self@;
        let mut online: Table<String, OnlineRoomInfo> = Table::new();
        let mut i: usize = 0;
        assert(rooms.take(0) =~= Seq::empty());
        while i < self.world.rooms.len()
            invariant
                i <= self.world.rooms@.len(),
                rooms == self@.world.rooms,
                users == self@.world.hub.users,
                self.config == old(self).config,
                self@ == (ServerModel {
                    activity: activity_now(start.activity, rooms.take(i as int), now),
                    ..start
                }),
                table::views(online@) == online_table(rooms.take(i as int), users, now),
            decreases self.world.rooms@.len() - i,
        {
            let room = self.world.rooms.value(i);
            proof {
                assert(rooms.take(i + 1).drop_last() =~= rooms.take(i as int));
                assert(rooms[i as int].1 == room@);
            }
            if room.listed {
                let players: Vec<String> = room.player_names(&self.world.hub.users);
                assert(players@.len() == names_of(room@.users, users).len());
                let current_chart: Option<OnlineRoomCurrentChart> = match room.current_chart() {
                    Some(c) => Some(OnlineRoomCurrentChart { id: c.id, name: c.name }),
                    None => None,
                };
                let info = OnlineRoomInfo {
                    id: room.id.to_string(),
                    player_count: players.len(),
                    state: room.state_words().to_owned(),
                    mode: room.mode_words().to_owned(),
                    locked: room.locked,
                    players,
                    current_chart,
                    created_at: now,
                };
                assert(info@ == online_info(room@, users, now));
                let key: String = room.id.to_string();
                let _ = online.insert(key.clone(), info);
                let _ = self.room_last_activity.insert(key, now);
            }
            i += 1;
        }
        assert(rooms.take(i as int) =~= rooms);
        self.online_rooms = online;
    }

    /// Notes the rooms that are on line, and gives the list of rooms.
    pub fn get_rooms_info(&mut self, now: u128) -> (res: Vec<RoomInfo>)
        ensures
            final(self)@ == (ServerModel {
                online: online_table(old(self)@.world.rooms, old(self)@.world.hub.users, now),
                activity: activity_now(old(self)@.activity, old(self)@.world.rooms, now),
                ..old(self)@
            }),
            final(self).config == old(self).config,
            replay::list_views(res@) == room_infos(
                old(self)@.world.rooms,
                old(self)@.world.hub.users,
                old(self)@.admins,
            ),
            keys::keyed(old(self)@) ==> keys::keyed(final(self)@),
    {
        self.refresh_rooms(now);
        self.get_rooms_info_from_state()
    }

    /// The list of sessions, each under the text of the number of its connection.
    pub fn get_sessions_info_from_state(&self) -> (res: Vec<(String, SessionInfoResponse)>)
        ensures
            res@.len() == self@.infos.len(),
            forall|i: int|
                0 <= i < res@.len() ==> (#[trigger] res@[i]).0@ == id_text(self@.infos[i].0)
                    && res@[i].1@ == self@.infos[i].1,
    {
        let mut res: Vec<(String, SessionInfoResponse)> = Vec::new();
        let mut i: usize = 0;
        while i < self.session_info.len()
            invariant
                i <= self.session_info@.len(),
                res@.len() == i,
                forall|j: int|
                    0 <= j < i ==> (#[trigger] res@[j]).0@ == id_text(self@.infos[j].0)
                        && res@[j].1@ == self@.infos[j].1,
            decreases self.session_info@.len() - i,
        {
            let info = self.session_info.value(i);
            let answer = SessionInfoResponse {
                user_id: info.user_id,
                user_name: info.user_name.clone(),
                ip_address: info.ip_address.clone(),
                connect_time: info.connect_time,
            };
            assert(answer@ == self@.infos[i as int].1);
            res.push((uuid_text(*self.session_info.key(i)), answer));
            i += 1;
        }
        res
    }

    /// Whether an address is on the black list.
    pub fn is_blacklisted(&self, ip: &String, now: u128) -> (res: bool)
        ensures
            res == blacklisted(self@.blacklist, ip@, now),
    {
        match self.ip_blacklist.get(ip) {
            Some(t) => is_within(*t, now, BLACKLIST_SECONDS),
            None => false,
        }
    }

    /// A number for a new connection, unless chance gives one that is taken.
    pub fn try_new_id(&self) -> (res: Option<u128>)
        ensures
            exists|id: u128| res == #[trigger] if_vacant(self@.sessions, id),
    {
        let id: u128 = random_id();
        self.claim(id)
    }

    /// A number, if it is free for a new connection.
    pub fn claim(&self, id: u128) -> (res: Option<u128>)
        ensures
            res == if_vacant(self@.sessions, id),
    {
        if self.is_vacant(id) {
            Some(id)
        } else {
            None
        }
    }

    /// Whether a number is free for a new connection.
    pub fn is_vacant(&self, id: u128) -> (res: bool)
        ensures
            res == !table::holds(self@.sessions, id),
    {
        !self.sessions.contains_key(&id)
    }
}

/// A number, unless a connection has it.
pub open spec fn if_vacant(sessions: Seq<(u128, i32)>, id: u128) -> Option<u128> {
    if table::holds(sessions, id) {
        None
    } else {
        Some(id)
    }
}

/// The names of the players of a room are those of everybody among them, in order.
pub proof fn law_names(ids: Seq<i32>, users: Seq<(i32, UserModel)>)
    requires
        forall|i: int| 0 <= i < ids.len() ==> table::lookup(users, #[trigger] ids[i]) is Some,
    ensures
        names_of(ids, users).len() == ids.len(),
        forall|i: int|
            0 <= i < ids.len() ==> #[trigger] names_of(ids, users)[i] == table::lookup(
                users,
                ids[i],
            )->Some_0.name,
    decreases ids.len(),
{
    if ids.len() > 0 {
        let front = ids.drop_last();
        assert forall|i: int| 0 <= i < front.len() implies table::lookup(
            users,
            #[trigger] front[i],
        ) is Some by {
            assert(front[i] == ids[i]);
        }
        law_names(front, users);
        assert(ids[ids.len() - 1] == ids.last());
        assert forall|i: int| 0 <= i < ids.len() implies #[trigger] names_of(ids, users)[i]
            == table::lookup(users, ids[i])->Some_0.name by {
            if i < front.len() {
                assert(names_of(ids, users)[i] == names_of(front, users)[i]);
                assert(front[i] == ids[i]);
            }
        }
    }
}

/// What the list of rooms tells of a room: its id, how many players there are and who they are,
/// whether it plays, is locked or neither, whether it is one of a competition or takes turns, and
/// its chart.
pub proof fn law_room_told(r: RoomModel, users: Seq<(i32, UserModel)>, admin: bool)
    ensures
        ({
            let k = room_info(r, users, admin);
            &&& k.id == r.id
            &&& k.players == names_of(r.users, users)
            &&& k.player_count == k.players.len()
            &&& k.locked == r.locked
            &&& k.is_competition == admin
            &&& r.phase is Playing ==> k.state == "游戏中"@
            &&& !(r.phase is Playing) && r.locked ==> k.state == "已锁定"@
            &&& !(r.phase is Playing) && !r.locked ==> k.state == "准备中"@
            &&& admin ==> k.mode == "比赛模式"@
            &&& !admin && r.cycle ==> k.mode == "循环模式"@
            &&& !admin && !r.cycle ==> k.mode == "普通模式"@
            &&& r.chart matches Some(c) ==> k.current_chart == Some((c.id, c.name))
            &&& r.chart is None ==> k.current_chart is None
        }),
{
}

/// The list of rooms holds every room that can be found, in order, and no other: one more room
/// adds one entry at its end, or none if it cannot be found.
pub proof fn law_rooms_listed(
    rooms: Seq<(u64, RoomModel)>,
    users: Seq<(i32, UserModel)>,
    admins: Seq<(Seq<char>, bool)>,
    h: u64,
    r: RoomModel,
)
    ensures
        room_infos(Seq::empty(), users, admins).len() == 0,
        room_infos(rooms.push((h, r)), users, admins) == (if r.listed {
            room_infos(rooms, users, admins).push(
                room_info(r, users, table::lookup(admins, r.id) is Some),
            )
        } else {
            room_infos(rooms, users, admins)
        }),
{
    assert(rooms.push((h, r)).drop_last() =~= rooms);
}

/// Every room that can be found is noted as active now, and no other.
pub proof fn law_activity_noted(
    s: Seq<(Seq<char>, u128)>,
    rooms: Seq<(u64, RoomModel)>,
    now: u128,
    id: Seq<char>,
)
    ensures
        table::lookup(activity_now(s, rooms, now), id) == (if exists|i: int|
            0 <= i < rooms.len() && (#[trigger] rooms[i]).1.listed && rooms[i].1.id == id {
            Some(now)
        } else {
            table::lookup(s, id)
        }),
    decreases rooms.len(),
{
    if rooms.len() > 0 {
        let rest = rooms.drop_last();
        let front = activity_now(s, rest, now);
        let r = rooms.last().1;
        law_activity_noted(s, rest, now, id);
        table::lemma_put_lookup(front, r.id, now, id);
        if exists|i: int| 0 <= i < rest.len() && (#[trigger] rest[i]).1.listed && rest[i].1.id == id {
            let i = choose|i: int|
                0 <= i < rest.len() && (#[trigger] rest[i]).1.listed && rest[i].1.id == id;
            assert(rooms[i] == rest[i]);
        }
        if exists|i: int|
            0 <= i < rooms.len() && (#[trigger] rooms[i]).1.listed && rooms[i].1.id == id {
            let i = choose|i: int|
                0 <= i < rooms.len() && (#[trigger] rooms[i]).1.listed && rooms[i].1.id == id;
            if i < rest.len() {
                assert(rest[i] == rooms[i]);
            }
        }
        assert(rooms[rooms.len() - 1] == rooms.last());
    }
}

/// A connection is given a number only if no other has it.
pub proof fn law_number_is_free(sessions: Seq<(u128, i32)>, id: u128)
    ensures
        if_vacant(sessions, id) == (if table::lookup(sessions, id) is None {
            Some(id)
        } else {
            None
        }),
{
}

/// What is told of a room on line: its name, its players by name, what it is doing and how, the
/// chart, whether it is locked, and when it was told.
pub proof fn law_online_told(
    rooms: Seq<(u64, RoomModel)>,
    users: Seq<(i32, UserModel)>,
    now: u128,
    h: u64,
    r: RoomModel,
    other: Seq<char>,
)
    ensures
        ({
            let before = online_table(rooms, users, now);
            let after = online_table(rooms.push((h, r)), users, now);
            &&& !r.listed ==> after == before
            &&& other != r.id ==> table::lookup(after, other) == table::lookup(before, other)
            &&& r.listed ==> (table::lookup(after, r.id) matches Some(o) && {
                &&& o.id == r.id
                &&& o.locked == r.locked
                &&& o.created_at == now
                &&& o.players == names_of(r.users, users)
                &&& o.player_count == o.players.len()
                &&& r.cycle ==> o.mode == "循环模式"@
                &&& !r.cycle ==> o.mode == "普通模式"@
                &&& r.phase is Playing ==> o.state == "游戏中"@
                &&& !(r.phase is Playing) && r.locked ==> o.state == "已锁定"@
                &&& !(r.phase is Playing) && !r.locked ==> o.state == "准备中"@
                &&& r.chart matches Some(c) ==> o.current_chart == Some((c.id, c.name))
                &&& r.chart is None ==> o.current_chart is None
            })
        }),
{
    assert(rooms.push((h, r)).drop_last() =~= rooms);
    let before = online_table(rooms, users, now);
    table::lemma_put_lookup(before, r.id, online_info(r, users, now), r.id);
    table::lemma_put_lookup(before, r.id, online_info(r, users, now), other);
}

} // verus!
