//! Connections: who is let in, what becomes of a lost user, and who is sent away.
use crate::ban;
use crate::ban::{BanInfo, BanType};
use crate::bin::BinaryData;
use crate::command::{ClientCommand, ClientCommandModel, ServerCommand, ServerCommandModel};
use crate::frame::HEARTBEAT_DISCONNECT_TIMEOUT;
use crate::hub;
use crate::hub::{Effect, EffectModel, HubModel, User, UserModel};
use crate::keys;
use crate::laws;
use crate::room;
use crate::room::{InternalRoomState, RoomModel};
use crate::server;
use crate::server::{ServerModel, ServerState, SessionInfo, SessionModel};
use crate::table;
use crate::text;
use crate::upkeep;
use crate::world;
use crate::world::{World, WorldModel};
use vstd::prelude::*;
use vstd::string::*;
use vstd::utf8::*;

verus! {

broadcast use table::group_views;

/// A room without one of its people, whoever they were in it.
pub open spec fn purged(r: RoomModel, uid: i32) -> RoomModel {
    RoomModel {
        host: if r.host == Some(uid) {
            None
        } else {
            r.host
        },
        users: room::dropped(r.users, uid),
        monitors: room::dropped(r.monitors, uid),
        ..r
    }
}

/// Rooms without one of their people.
pub open spec fn rooms_purged(rooms: Seq<(u64, RoomModel)>, uid: i32) -> Seq<(u64, RoomModel)> {
    Seq::new(rooms.len(), |i: int| (rooms[i].0, purged(rooms[i].1, uid)))
}

/// A world that knows nothing of a user.
pub open spec fn forgotten(w: WorldModel, uid: i32) -> WorldModel {
    WorldModel {
        hub: HubModel { users: table::without(w.hub.users, uid), ..w.hub },
        rooms: rooms_purged(w.rooms, uid),
        ..w
    }
}

/// Whether a user's game is on.
pub open spec fn in_game(w: WorldModel, uid: i32) -> bool {
    world::room_of(w, uid) matches Some((_, r)) && r.phase is Playing
}

/// The connection of a user is lost: a game is left at once; else the user is marked, and
/// given up later.
pub open spec fn dangled(w: WorldModel, uid: i32, mark: u64, pick: Option<i32>) -> WorldModel {
    match world::user_of(w, uid) {
        Some(u) => if in_game(w, uid) {
            forgotten(world::left_room(w, uid, pick), uid)
        } else {
            WorldModel {
                hub: hub::emitted(
                    hub::user_set(w.hub, uid, UserModel { dangle_mark: Some(mark), ..u }),
                    EffectModel::GiveUp { user: uid, mark },
                ),
                ..w
            }
        },
        None => w,
    }
}

/// A lost user who has not come back since leaves their room, and is forgotten.
pub open spec fn given_up(w: WorldModel, uid: i32, mark: u64, pick: Option<i32>) -> WorldModel {
    match world::user_of(w, uid) {
        Some(u) => if u.dangle_mark == Some(mark) && world::room_of(w, uid) is Some {
            forgotten(world::left_room(w, uid, pick), uid)
        } else {
            w
        },
        None => w,
    }
}

/// Forgetting a user keeps the world.
pub proof fn law_forgotten(w: WorldModel, uid: i32)
    requires
        world::wf(w),
    ensures
        world::wf(forgotten(w, uid)),
        world::user_of(forgotten(w, uid), uid) is None,
{
    let v = forgotten(w, uid);
    table::lemma_without_lookup(w.hub.users, uid, uid);
    table::lemma_find(w.hub.users, uid);
    assert forall|i: int, j: int| 0 <= i < j < v.rooms.len() implies (#[trigger] v.rooms[i]).0
        != (#[trigger] v.rooms[j]).0 by {
        assert(w.rooms[i].0 != w.rooms[j].0);
    }
    let k = table::find(w.hub.users, uid);
    assert forall|i: int| 0 <= i < v.hub.users.len() implies (#[trigger] v.hub.users[i]).1.id
        == v.hub.users[i].0 by {
        if table::holds(w.hub.users, uid) && i >= k {
            assert(v.hub.users[i] == w.hub.users[i + 1]);
        } else {
            assert(v.hub.users[i] == w.hub.users[i]);
        }
    }
    assert forall|i: int| 0 <= i < v.rooms.len() implies (#[trigger] v.rooms[i]).0 < v.next_room
        && world::known(v.rooms[i].1, v.hub.users) by {
        let r = w.rooms[i].1;
        assert(w.rooms[i].0 < w.next_room);
        assert(world::known(r, w.hub.users));
        upkeep::lemma_dropped(r.users, uid);
        upkeep::lemma_dropped(r.monitors, uid);
        let p = v.rooms[i].1;
        assert forall|j: int| 0 <= j < p.users.len() implies table::holds(
            v.hub.users,
            #[trigger] p.users[j],
        ) by {
            assert(r.users.contains(room::dropped(r.users, uid)[j]));
            let m = choose|m: int| 0 <= m < r.users.len() && r.users[m] == p.users[j];
            assert(table::holds(w.hub.users, r.users[m]));
            table::lemma_without_lookup(w.hub.users, uid, p.users[j]);
        }
        assert forall|j: int| 0 <= j < p.monitors.len() implies table::holds(
            v.hub.users,
            #[trigger] p.monitors[j],
        ) by {
            assert(r.monitors.contains(room::dropped(r.monitors, uid)[j]));
            let m = choose|m: int| 0 <= m < r.monitors.len() && r.monitors[m] == p.monitors[j];
            assert(table::holds(w.hub.users, r.monitors[m]));
            table::lemma_without_lookup(w.hub.users, uid, p.monitors[j]);
        }
        if let Some(h) = p.host {
            table::lemma_without_lookup(w.hub.users, uid, h);
        }
    }
}

/// Losing a connection keeps the world.
pub proof fn law_dangled(w: WorldModel, uid: i32, mark: u64, pick: Option<i32>)
    requires
        world::wf(w),
        in_game(w, uid) ==> world::can_leave(w, uid) && room::valid_pick(
            pick,
            world::successors(w, uid),
        ),
    ensures
        world::wf(dangled(w, uid, mark, pick)),
{
    world::lemma_user_id(w.hub.users, uid);
    if let Some(u) = world::user_of(w, uid) {
        if in_game(w, uid) {
            upkeep::law_left_room(w, uid, pick);
            law_forgotten(world::left_room(w, uid, pick), uid);
        } else {
            lemma_user_marked(w, uid, UserModel { dangle_mark: Some(mark), ..u });
            let v = WorldModel {
                hub: hub::user_set(w.hub, uid, UserModel { dangle_mark: Some(mark), ..u }),
                ..w
            };
            upkeep::lemma_same_rooms(v, dangled(w, uid, mark, pick));
        }
    }
}

/// Giving a lost user up keeps the world.
pub proof fn law_given_up(w: WorldModel, uid: i32, mark: u64, pick: Option<i32>)
    requires
        world::wf(w),
        world::can_leave(w, uid),
        room::valid_pick(pick, world::successors(w, uid)),
    ensures
        world::wf(given_up(w, uid, mark, pick)),
{
    upkeep::law_left_room(w, uid, pick);
    law_forgotten(world::left_room(w, uid, pick), uid);
}

/// Changing a user, but for their id, keeps the world.
pub proof fn lemma_user_marked(w: WorldModel, uid: i32, u: UserModel)
    requires
        world::wf(w),
        table::holds(w.hub.users, uid),
        u.id == uid,
    ensures
        world::wf(WorldModel { hub: hub::user_set(w.hub, uid, u), ..w }),
{
    let v = WorldModel { hub: hub::user_set(w.hub, uid, u), ..w };
    upkeep::lemma_user_changed(w.hub.users, uid, u);
    upkeep::lemma_same_ids(w.hub.users, v.hub.users);
    assert forall|i: int| 0 <= i < v.rooms.len() implies world::known(
        (#[trigger] v.rooms[i]).1,
        v.hub.users,
    ) by {
        assert(world::known(w.rooms[i].1, w.hub.users));
    }
}

impl World {
    /// Forgets a user.
    pub fn forget_user(&mut self, uid: i32)
        ensures
            final(self)@ == forgotten(old(self)@, uid),
    {
        let ghost start = self@;
        let ghost rooms = self@.rooms;
        let mut i: usize = 0;
        while i < self.rooms.len()
            invariant
                i <= self.rooms@.len(),
                self@.rooms.len() == rooms.len(),
                self@.hub == start.hub,
                self@.next_room == start.next_room,
                self@.replays == start.replays,
                forall|j: int| 0 <= j < i ==> (#[trigger] self@.rooms[j]) == (rooms[j].0, purged(
                    rooms[j].1,
                    uid,
                )),
                forall|j: int| i <= j < rooms.len() ==> (#[trigger] self@.rooms[j]) == rooms[j],
            decreases self.rooms@.len() - i,
        {
            let ghost before = self@.rooms;
            let ghost raw = self.rooms@;
            assert(before[i as int] == rooms[i as int]);
            let room = self.rooms.value_mut(i);
            let hosted: bool = match room.host {
                Some(h) => h == uid,
                None => false,
            };
            if hosted {
                room.host = None;
            }
            let players: Vec<i32> = room::without_id(&room.users, uid);
            let watchers: Vec<i32> = room::without_id(&room.monitors, uid);
            room.users = players;
            room.monitors = watchers;
            proof {
                assert(self.rooms@.len() == raw.len());
                assert(self@.rooms[i as int].1 == purged(rooms[i as int].1, uid));
                assert forall|j: int| 0 <= j < rooms.len() && j != i implies (
                #[trigger] self@.rooms[j]) == before[j] by {
                    assert(self.rooms@[j] == raw[j]);
                }
            }
            i += 1;
        }
        let _ = self.hub.users.remove(&uid);
        assert(self@.rooms =~= rooms_purged(rooms, uid));
    }

    /// Whether a user's game is on.
    pub fn is_in_game(&self, uid: i32) -> (res: bool)
        ensures
            res == in_game(self@, uid),
    {
        match self.room_handle(uid) {
            Some(h) => match self.rooms.get(&h) {
                Some(room) => matches!(room.state, InternalRoomState::Playing { .. }),
                None => false,
            },
            None => false,
        }
    }

    /// The connection of a user is lost.
    pub fn dangle(&mut self, uid: i32, mark: u64, pick: Option<i32>)
        requires
            world::wf(old(self)@),
            in_game(old(self)@, uid) ==> world::can_leave(old(self)@, uid) && room::valid_pick(
                pick,
                world::successors(old(self)@, uid),
            ),
        ensures
            final(self)@ == dangled(old(self)@, uid, mark, pick),
            world::wf(final(self)@),
    {
        proof {
            law_dangled(self@, uid, mark, pick);
        }
        if self.is_in_game(uid) {
            self.leave_room(uid, pick);
            self.forget_user(uid);
        } else if let Some(user) = self.hub.users.get_mut(&uid) {
            user.dangle_mark = Some(mark);
            self.hub.emit(Effect::GiveUp { user: uid, mark });
        }
    }

    /// Gives a lost user up who has not come back since.
    pub fn give_up(&mut self, uid: i32, mark: u64, pick: Option<i32>)
        requires
            world::wf(old(self)@),
            world::can_leave(old(self)@, uid),
            room::valid_pick(pick, world::successors(old(self)@, uid)),
        ensures
            final(self)@ == given_up(old(self)@, uid, mark, pick),
            world::wf(final(self)@),
    {
        proof {
            law_given_up(self@, uid, mark, pick);
        }
        let lost: bool = match self.hub.users.get(&uid) {
            Some(user) => match user.dangle_mark {
                Some(m) => m == mark,
                None => false,
            },
            None => false,
        };
        if lost && self.room_handle(uid).is_some() {
            self.leave_room(uid, pick);
            self.forget_user(uid);
        }
    }
}

/// A connection before and after its user is known.
#[derive(Debug, Clone, Copy, PartialEq, Eq, Structural)]
pub struct Link {
    /// Whether nothing has come yet.
    pub fresh: bool,
    /// Whether the user is not known yet.
    pub waiting: bool,
    /// Whether the connection is given up.
    pub dead: bool,
}

/// What is to be done about a command.
#[derive(Debug, PartialEq, Eq)]
pub enum Heed {
    /// Nothing.
    Drop,
    /// Answer a sign of life.
    Pong,
    /// Find out whose token it is.
    Identify(String),
    /// Do what the user asks for.
    Process(ClientCommand),
}

/// What a [`Heed`] means.
#[verifier::ext_equal]
pub enum HeedModel {
    Drop,
    Pong,
    Identify(Seq<char>),
    Process(ClientCommandModel),
}

impl View for Heed {
    type V = HeedModel;

    open spec fn view(&self) -> HeedModel {
        match *self {
            Heed::Drop => HeedModel::Drop,
            Heed::Pong => HeedModel::Pong,
            Heed::Identify(token) => HeedModel::Identify(token@),
            Heed::Process(cmd) => HeedModel::Process(cmd.model()),
        }
    }
}

/// What is to be done about a command: signs of life are always answered; a user has one
/// chance to tell who they are, with their first command.
pub open spec fn heeded(l: Link, cmd: ClientCommandModel) -> HeedModel {
    if l.dead {
        HeedModel::Drop
    } else if cmd is Ping {
        HeedModel::Pong
    } else if l.waiting {
        match cmd {
            ClientCommandModel::Authenticate { token } => if l.fresh {
                HeedModel::Identify(token)
            } else {
                HeedModel::Drop
            },
            _ => HeedModel::Drop,
        }
    } else {
        HeedModel::Process(cmd)
    }
}

impl Link {
    /// A connection that has just been made.
    pub fn new() -> (res: Link)
        ensures
            res == (Link { fresh: true, waiting: true, dead: false }),
    {
        Link { fresh: true, waiting: true, dead: false }
    }

    /// Whose token it was is found out: from now on the user is heeded, or nobody is.
    pub fn identified(&mut self, known: bool)
        ensures
            *final(self) == (if known {
                Link { waiting: false, ..*old(self) }
            } else {
                Link { dead: true, ..*old(self) }
            }),
    {
        if known {
            self.waiting = false;
        } else {
            self.dead = true;
        }
    }

    /// What is to be done about a command.
    pub fn heed(&mut self, cmd: ClientCommand) -> (res: Heed)
        ensures
            res@ == heeded(*old(self), cmd.model()),
            *final(self) == (Link { fresh: false, ..*old(self) }),
    {
        let fresh: bool = self.fresh;
        self.fresh = false;
        if self.dead {
            return Heed::Drop;
        }
        if matches!(cmd, ClientCommand::Ping) {
            return Heed::Pong;
        }
        if self.waiting {
            match cmd {
                ClientCommand::Authenticate { token } => {
                    if fresh {
                        Heed::Identify(token.into_inner())
                    } else {
                        Heed::Drop
                    }
                },
                _ => Heed::Drop,
            }
        } else {
            Heed::Process(cmd)
        }
    }
}

/// Whether nothing has come for so long that a connection is lost; both moments are in
/// nanoseconds.
pub fn is_overdue(last_recv: u128, now: u128) -> (res: bool)
    ensures
        res == (now - last_recv >= HEARTBEAT_DISCONNECT_TIMEOUT * 1_000_000_000),
{
    now >= last_recv && now - last_recv >= 30_000_000_000
}

/// The most bytes of a token.
pub const TOKEN_BYTES: usize = 32;

/// What a user on the black list is told.
pub open spec fn blacklist_text() -> Seq<char> {
    "该账号已被封禁，无法连接该服务器"@
}

/// What a user without a place on the list is told while the server is being maintained.
pub open spec fn maintenance_text() -> Seq<char> {
    "当前服务器正在维护，为了保证游戏体验，请稍作等待或使用其它服务器，如有疑问请联系服主（2357444016）或加群（702640128）联系"@
}

/// What a banned user is told.
pub open spec fn ban_text(until: Seq<char>, reason: Seq<char>) -> Seq<char> {
    "由于您的账号存在违规行为，账号已被封禁，如有疑问请联系客服。\n封禁结束时间【"@ + until
        + "】\n封禁理由：【"@ + reason + "】"@
}

/// Why a token is not looked into: the address is on the black list, or the token is too
/// long.
pub open spec fn token_refusal(
    s: ServerModel,
    ip: Seq<char>,
    flagged: bool,
    token: Seq<char>,
    now: u128,
) -> Option<Seq<char>> {
    if flagged || server::blacklisted(s.blacklist, ip, now) {
        Some(blacklist_text())
    } else if encode_utf8(token).len() > TOKEN_BYTES {
        Some("invalid token"@)
    } else {
        None
    }
}

/// Whether a user may come in.
#[derive(Debug, PartialEq, Eq)]
pub enum Verdict {
    Welcome,
    /// The server is being maintained.
    Maintenance,
    Banned(BanInfo),
}

/// Whether a user may not come in for now because the server is being maintained.
pub open spec fn shut_out(s: ServerModel, user_id: i32) -> bool {
    s.maintenance && !s.whitelist.contains(user_id)
}

/// Whether a ban is on a user or on their address.
pub open spec fn is_banned(s: ServerModel, user_id: i32, ip: Seq<char>, now: u64) -> bool {
    (exists|i: int| #[trigger] ban::bans_user(s.bans, i, user_id, now)) || exists|i: int|
        #[trigger] ban::bans_ip(s.bans, i, ip, now)
}

/// Who a token belongs to.
#[derive(Debug, PartialEq, Eq)]
pub struct Profile {
    pub id: i32,
    pub name: String,
    pub language: String,
}

/// A user with a new connection: as they were, or as someone who has just come.
pub open spec fn arrived(w: WorldModel, p: Profile, session: u128) -> UserModel {
    match world::user_of(w, p.id) {
        Some(u) => UserModel { session: Some(session), dangle_mark: None, ..u },
        None => UserModel {
            session: Some(session),
            ..hub::new_user(p.id, p.name@, p.language@)
        },
    }
}

/// A user comes in, and learns where they are.
pub open spec fn welcomed(
    s: ServerModel,
    session: u128,
    p: Profile,
    ip: Seq<char>,
    now: u64,
) -> (ServerModel, ServerCommandModel) {
    let u = arrived(s.world, p, session);
    let world = WorldModel { hub: hub::user_set(s.world.hub, p.id, u), ..s.world };
    (
        ServerModel {
            world,
            sessions: table::put(s.sessions, session, p.id),
            infos: table::put(
                s.infos,
                session,
                SessionModel {
                    user_id: p.id,
                    user_name: p.name@,
                    ip_address: ip,
                    connect_time: now,
                },
            ),
            ..s
        },
        ServerCommandModel::Authenticate(
            Ok(
                (
                    hub::info(u),
                    match world::room_of(world, p.id) {
                        Some((_, r)) => Some(room::client_view(world::scene_in(world, r), p.id)),
                        None => None,
                    },
                ),
            ),
        ),
    )
}

/// A user who comes in keeps the world.
pub proof fn law_welcomed(s: ServerModel, session: u128, p: Profile, ip: Seq<char>, now: u64)
    requires
        world::wf(s.world),
    ensures
        world::wf(welcomed(s, session, p, ip, now).0.world),
        world::user_of(welcomed(s, session, p, ip, now).0.world, p.id) == Some(
            arrived(s.world, p, session),
        ),
{
    let w = s.world;
    let u = arrived(w, p, session);
    let v = WorldModel { hub: hub::user_set(w.hub, p.id, u), ..w };
    world::lemma_user_id(w.hub.users, p.id);
    table::lemma_put_lookup(w.hub.users, p.id, u, p.id);
    if table::holds(w.hub.users, p.id) {
        lemma_user_marked(w, p.id, u);
    } else {
        table::lemma_put_distinct(w.hub.users, p.id, u);
        assert forall|i: int| 0 <= i < v.rooms.len() implies world::known(
            (#[trigger] v.rooms[i]).1,
            v.hub.users,
        ) by {
            let r = w.rooms[i].1;
            assert(world::known(r, w.hub.users));
            assert forall|id: i32| table::holds(w.hub.users, id) implies #[trigger] table::holds(
                v.hub.users,
                id,
            ) by {
                table::lemma_put_lookup(w.hub.users, p.id, u, id);
            }
        }
    }
}

/// What a lost connection leaves of the world.
pub open spec fn world_after_loss(s: ServerModel, id: u128, pick: Option<i32>) -> WorldModel {
    match user_lost(s, id) {
        Some(uid) => dangled(s.world, uid, s.next_mark, pick),
        None => s.world,
    }
}

/// The user whose only connection is lost.
pub open spec fn user_lost(s: ServerModel, id: u128) -> Option<i32> {
    match table::lookup(s.sessions, id) {
        Some(uid) => match world::user_of(s.world, uid) {
            Some(u) => if u.session == Some(id) {
                Some(uid)
            } else {
                None
            },
            None => None,
        },
        None => None,
    }
}

/// A connection is lost: its user dangles, unless they have come back on another one.
pub open spec fn connection_lost(s: ServerModel, id: u128, pick: Option<i32>) -> ServerModel {
    ServerModel {
        world: world::emitted(
            world::emitted(world_after_loss(s, id, pick), EffectModel::RoomsChanged),
            EffectModel::SessionsChanged,
        ),
        sessions: table::without(s.sessions, id),
        infos: table::without(s.infos, id),
        next_mark: if user_lost(s, id) is Some {
            (s.next_mark + 1) as u64
        } else {
            s.next_mark
        },
        ..s
    }
}

/// Whether a lost connection can be dealt with: its user can leave the game they are in.
pub open spec fn can_lose(s: ServerModel, id: u128, pick: Option<i32>) -> bool {
    user_lost(s, id) matches Some(uid) ==> s.next_mark < u64::MAX && (in_game(s.world, uid)
        ==> world::can_leave(s.world, uid) && room::valid_pick(
        pick,
        world::successors(s.world, uid),
    ))
}

/// The sessions of a user, and those from an address.
pub open spec fn sessions_of(
    infos: Seq<(u128, SessionModel)>,
    user_id: Option<i32>,
    ip: Option<Seq<char>>,
) -> Seq<u128>
    decreases infos.len(),
{
    if infos.len() == 0 {
        Seq::empty()
    } else {
        let front = sessions_of(infos.drop_last(), user_id, ip);
        let (id, info) = infos.last();
        if user_id == Some(info.user_id) || ip == Some(info.ip_address) {
            front.push(id)
        } else {
            front
        }
    }
}

/// Entries without those under some keys.
pub open spec fn all_without<V>(s: Seq<(u128, V)>, ids: Seq<u128>) -> Seq<(u128, V)>
    decreases ids.len(),
{
    if ids.len() == 0 {
        s
    } else {
        table::without(all_without(s, ids.drop_last()), ids.last())
    }
}

impl ServerState {
    /// Why a token is not looked into.
    pub fn refuse_token(&self, ip: &String, flagged: bool, token: &String, now: u128) -> (res:
        Option<String>)
        ensures
            match token_refusal(self@, ip@, flagged, token@, now) {
                Some(t) => res matches Some(r) && r@ == t,
                None => res is None,
            },
    {
        if flagged || self.is_blacklisted(ip, now) {
            Some("该账号已被封禁，无法连接该服务器".to_owned())
        } else if token.as_str().as_bytes().len() > TOKEN_BYTES {
            Some("invalid token".to_owned())
        } else {
            None
        }
    }

    /// Whether a user may come in from an address; `now` is in seconds since 1970.
    pub fn judge_arrival(&self, user_id: i32, ip: &String, now: u64) -> (res: Verdict)
        requires
            ban::all_end(self@.bans),
        ensures
            res is Maintenance <==> shut_out(self@, user_id),
            res is Banned <==> !shut_out(self@, user_id) && is_banned(self@, user_id, ip@, now),
            res matches Verdict::Banned(b) ==> exists|i: int|
                #![trigger self@.bans[i]]
                0 <= i < self@.bans.len() && self@.bans[i].1 == b@ && !ban::expired(b@, now) && (
                ban::on_user(b@, user_id) || ban::on_ip(b@, ip@)),
            res matches Verdict::Banned(b) ==> ((exists|i: int|
                #[trigger] ban::bans_user(self@.bans, i, user_id, now)) ==> ban::on_user(
                b@,
                user_id,
            )),
    {
        if self.maintenance_mode && !text::contains_id(&self.maintenance_whitelist, user_id) {
            return Verdict::Maintenance;
        }
        match self.ban_manager.is_user_or_ip_banned(user_id, ip.as_str(), now) {
            Some(ban) => {
                proof {
                    if exists|i: int|
                        #[trigger] ban::bans_user(self@.bans, i, user_id, now) && self@.bans[i].1
                            == ban@ {
                        let i = choose|i: int|
                            #[trigger] ban::bans_user(self@.bans, i, user_id, now)
                                && self@.bans[i].1 == ban@;
                        assert(self@.bans[i].1 == ban@);
                    } else {
                        let i = choose|i: int|
                            #[trigger] ban::bans_ip(self@.bans, i, ip@, now) && self@.bans[i].1
                                == ban@;
                        assert(self@.bans[i].1 == ban@);
                    }
                }
                Verdict::Banned(ban)
            },
            None => Verdict::Welcome,
        }
    }

    /// A user comes in, and learns where they are; `now` is in seconds since 1970.
    pub fn welcome(&mut self, session: u128, profile: Profile, ip: String, now: u64) -> (res:
        ServerCommand)
        requires
            world::wf(old(self)@.world),
        ensures
            (final(self)@, res.model()) == welcomed(old(self)@, session, profile, ip@, now),
            world::wf(final(self)@.world),
            final(self).config == old(self).config,
            keys::keyed(old(self)@) ==> keys::keyed(final(self)@),
    {
        proof {
            if keys::keyed(self@) {
                keys::law_welcomed_keyed(self@, session, profile, ip@, now);
            }
        }
        proof {
            law_welcomed(self@, session, profile, ip@, now);
            world::lemma_user_id(self@.world.hub.users, profile.id);
        }
        let id: i32 = profile.id;
        let user_name: String = profile.name.clone();
        if let Some(user) = self.world.hub.users.get_mut(&id) {
            user.set_session(session);
        } else {
            let mut user: User = User::new(id, profile.name, profile.language);
            user.set_session(session);
            let _ = self.world.hub.users.insert(id, user);
        }
        let _ = self.sessions.insert(session, id);
        let info = SessionInfo { user_id: id, user_name, ip_address: ip, connect_time: now };
        let _ = self.session_info.insert(session, info);
        let room: Option<crate::command::ClientRoomState> = match self.world.room_handle(id) {
            Some(h) => match self.world.rooms.get(&h) {
                Some(room) => Some(room.client_state(&self.world.hub, id)),
                None => None,
            },
            None => None,
        };
        match self.world.hub.users.get(&id) {
            Some(user) => ServerCommand::Authenticate(Ok((user.to_info(), room))),
            None => ServerCommand::Pong,
        }
    }

    /// The user whose only connection is lost.
    pub fn lost_user(&self, id: u128) -> (res: Option<i32>)
        ensures
            res == user_lost(self@, id),
    {
        match self.sessions.get(&id) {
            Some(uid) => match self.world.hub.users.get(uid) {
                Some(user) => match user.session {
                    Some(s) => {
                        if s == id {
                            Some(*uid)
                        } else {
                            None
                        }
                    },
                    None => None,
                },
                None => None,
            },
            None => None,
        }
    }

    /// A connection is lost.
    pub fn lose(&mut self, id: u128, pick: Option<i32>)
        requires
            world::wf(old(self)@.world),
            can_lose(old(self)@, id, pick),
        ensures
            final(self)@ == connection_lost(old(self)@, id, pick),
            world::wf(final(self)@.world),
            final(self).config == old(self).config,
            keys::keyed(old(self)@) ==> keys::keyed(final(self)@),
    {
        proof {
            if keys::keyed(self@) {
                keys::law_lost_keyed(self@, id, pick);
            }
        }
        if let Some(uid) = self.lost_user(id) {
            self.world.dangle(uid, self.next_mark, pick);
            self.next_mark = self.next_mark + 1;
        }
        let ghost mid = self@.world;
        let _ = self.sessions.remove(&id);
        let _ = self.session_info.remove(&id);
        self.world.hub.emit(Effect::RoomsChanged);
        self.world.hub.emit(Effect::SessionsChanged);
        proof {
            upkeep::lemma_same_rooms(mid, self@.world);
        }
    }

    /// The sessions of a user, and those from an address.
    pub fn find_sessions(&self, user_id: Option<i32>, ip: &Option<String>) -> (res: Vec<u128>)
        ensures
            res@ == sessions_of(self@.infos, user_id, ban::opt_text(*ip)),
    {
        let ghost infos = self@.infos;
        let mut res: Vec<u128> = Vec::new();
        let mut i: usize = 0;
        assert(infos.take(0) =~= Seq::empty());
        while i < self.session_info.len()
            invariant
                i <= self.session_info@.len(),
                infos == self@.infos,
                res@ == sessions_of(infos.take(i as int), user_id, ban::opt_text(*ip)),
            decreases self.session_info@.len() - i,
        {
            let info = self.session_info.value(i);
            proof {
                assert(infos.take(i + 1).drop_last() =~= infos.take(i as int));
                assert(infos[i as int].1 == info@);
            }
            let by_user: bool = match user_id {
                Some(uid) => uid == info.user_id,
                None => false,
            };
            let by_ip: bool = match ip {
                Some(a) => text::same(a.as_str(), info.ip_address.as_str()),
                None => false,
            };
            if by_user || by_ip {
                res.push(*self.session_info.key(i));
            }
            i += 1;
        }
        assert(infos.take(i as int) =~= infos);
        res
    }

    /// Takes a connection away from its user, who is given back.
    pub fn cut(&mut self, id: u128) -> (res: Option<i32>)
        ensures
            res == table::lookup(old(self)@.sessions, id),
            final(self)@ == (ServerModel {
                sessions: table::without(old(self)@.sessions, id),
                ..old(self)@
            }),
            final(self).config == old(self).config,
            keys::keyed(old(self)@) ==> keys::keyed(final(self)@),
    {
        proof {
            if keys::keyed(self@) {
                table::lemma_without_lookup(self@.sessions, id, id);
            }
        }
        self.sessions.remove(&id)
    }

    /// Forgets where some connections came from, and has the lists published.
    pub fn forget_sessions(&mut self, ids: &Vec<u128>)
        ensures
            final(self)@ == (ServerModel {
                infos: all_without(old(self)@.infos, ids@),
                world: world::emitted(
                    world::emitted(old(self)@.world, EffectModel::SessionsChanged),
                    EffectModel::RoomsChanged,
                ),
                ..old(self)@
            }),
            final(self).config == old(self).config,
            keys::keyed(old(self)@) ==> keys::keyed(final(self)@),
    {
        proof {
            if keys::keyed(self@) {
                keys::law_without_keyed(self@.infos, ids@);
            }
        }
        let ghost start = self@;
        let mut i: usize = 0;
        assert(ids@.take(0) =~= Seq::empty());
        while i < ids.len()
            invariant
                i <= ids.len(),
                self.config == old(self).config,
                self@ == (ServerModel {
                    infos: all_without(start.infos, ids@.take(i as int)),
                    ..start
                }),
            decreases ids.len() - i,
        {
            assert(ids@.take(i + 1).drop_last() =~= ids@.take(i as int));
            let _ = self.session_info.remove(&ids[i]);
            i += 1;
        }
        assert(ids@.take(i as int) =~= ids@);
        self.world.hub.emit(Effect::SessionsChanged);
        self.world.hub.emit(Effect::RoomsChanged);
    }
}

/// What a banned user is told; `until` is when the ban ends.
pub fn ban_message(until: &str, reason: &str) -> (res: String)
    ensures
        res@ == ban_text(until@, reason@),
{
    let a: String = room::join2(
        "由于您的账号存在违规行为，账号已被封禁，如有疑问请联系客服。\n封禁结束时间【",
        until,
    );
    let b: String = room::join2(a.as_str(), "】\n封禁理由：【");
    let c: String = room::join2(b.as_str(), reason);
    room::join2(c.as_str(), "】")
}

/// What a user without a place on the list is told while the server is being maintained.
pub fn maintenance_message() -> (res: String)
    ensures
        res@ == maintenance_text(),
{
    "当前服务器正在维护，为了保证游戏体验，请稍作等待或使用其它服务器，如有疑问请联系服主（2357444016）或加群（702640128）联系".to_owned()
}

/// Lost users come back: one who is welcomed before the time is up is not given up.
pub proof fn law_back_in_time(
    s: ServerModel,
    session: u128,
    p: Profile,
    ip: Seq<char>,
    now: u64,
    mark: u64,
    pick: Option<i32>,
)
    requires
        world::wf(s.world),
    ensures
        ({
            let w = welcomed(s, session, p, ip, now).0.world;
            given_up(w, p.id, mark, pick) == w
        }),
{
    law_welcomed(s, session, p, ip, now);
}

/// A connection that a user has left for another one is lost without any harm to them.
pub proof fn law_old_connection(
    s: ServerModel,
    old_session: u128,
    session: u128,
    p: Profile,
    ip: Seq<char>,
    now: u64,
    pick: Option<i32>,
)
    requires
        world::wf(s.world),
        old_session != session,
        table::lookup(s.sessions, old_session) == Some(p.id),
    ensures
        ({
            let t = welcomed(s, session, p, ip, now).0;
            world_after_loss(t, old_session, pick) == t.world
        }),
{
    law_welcomed(s, session, p, ip, now);
    table::lemma_put_lookup(s.sessions, session, p.id, old_session);
}

/// A lost user who is in no game keeps their place in the room for now.
pub proof fn law_place_kept(w: WorldModel, uid: i32, mark: u64, pick: Option<i32>)
    requires
        world::wf(w),
        !in_game(w, uid),
    ensures
        dangled(w, uid, mark, pick).rooms == w.rooms,
        world::user_of(w, uid) matches Some(u) ==> world::user_of(
            dangled(w, uid, mark, pick),
            uid,
        ) == Some(UserModel { dangle_mark: Some(mark), ..u }),
{
    if let Some(u) = world::user_of(w, uid) {
        table::lemma_put_lookup(
            w.hub.users,
            uid,
            UserModel { dangle_mark: Some(mark), ..u },
            uid,
        );
    }
}

/// What is done about a command: a sign of life is answered, whoever it comes from. A user who is
/// not known yet is heeded only if the first thing they send says who they are, and one who is
/// known is heeded in everything. A connection that is given up is not heeded at all.
pub proof fn law_heeding(l: Link, cmd: ClientCommandModel, token: Seq<char>)
    ensures
        l.dead ==> heeded(l, cmd) == HeedModel::Drop,
        !l.dead && cmd == ClientCommandModel::Ping ==> heeded(l, cmd) == HeedModel::Pong,
        !l.dead && l.waiting && l.fresh ==> heeded(
            l,
            ClientCommandModel::Authenticate { token },
        ) == HeedModel::Identify(token),
        !l.dead && l.waiting && !l.fresh && !(cmd is Ping) ==> heeded(l, cmd) == HeedModel::Drop,
        !l.dead && l.waiting && !(cmd is Ping) && !(cmd is Authenticate) ==> heeded(l, cmd)
            == HeedModel::Drop,
        !l.dead && !l.waiting && !(cmd is Ping) ==> heeded(l, cmd) == HeedModel::Process(cmd),
{
}

/// Nobody is asked who they are from an address on the black list, nor with a token of more than
/// 32 bytes; everybody else is.
pub proof fn law_tokens_looked_into(
    s: ServerModel,
    ip: Seq<char>,
    flagged: bool,
    token: Seq<char>,
    now: u128,
)
    ensures
        token_refusal(s, ip, flagged, token, now) is None <==> {
            &&& !flagged
            &&& table::lookup(s.blacklist, ip) matches Some(t) ==> now - t >= 10_000_000_000
            &&& encode_utf8(token).len() <= 32
        },
{
}

/// While the server is being maintained, those on the list come in and nobody else; else
/// everybody does whom no ban is on.
pub proof fn law_maintained(s: ServerModel, user_id: i32)
    ensures
        shut_out(s, user_id) <==> s.maintenance && forall|i: int|
            0 <= i < s.whitelist.len() ==> #[trigger] s.whitelist[i] != user_id,
{
    if s.whitelist.contains(user_id) {
        let i = choose|i: int| 0 <= i < s.whitelist.len() && s.whitelist[i] == user_id;
        assert(s.whitelist[i] == user_id);
    } else {
        assert forall|i: int| 0 <= i < s.whitelist.len() implies #[trigger] s.whitelist[i]
            != user_id by {
            if s.whitelist[i] == user_id {
                assert(s.whitelist.contains(user_id));
            }
        }
    }
}

/// Who is kept out by a ban: a user whom one is on that is not over, or whose address one is on.
pub proof fn law_kept_out(s: ServerModel, user_id: i32, ip: Seq<char>, now: u64)
    ensures
        is_banned(s, user_id, ip, now) <==> exists|i: int|
            #![trigger s.bans[i]]
            0 <= i < s.bans.len() && now < s.bans[i].1.start + s.bans[i].1.duration && ({
                ||| s.bans[i].1.kind != BanType::Ip && s.bans[i].1.user_id == Some(user_id)
                ||| s.bans[i].1.kind != BanType::UserId && s.bans[i].1.ip_address == Some(ip)
            }),
{
    if is_banned(s, user_id, ip, now) {
        if exists|i: int| #[trigger] ban::bans_user(s.bans, i, user_id, now) {
            let i = choose|i: int| #[trigger] ban::bans_user(s.bans, i, user_id, now);
            assert(s.bans[i].1.user_id == Some(user_id));
        } else {
            let i = choose|i: int| #[trigger] ban::bans_ip(s.bans, i, ip, now);
            assert(s.bans[i].1.ip_address == Some(ip));
        }
    }
    if exists|i: int|
        #![trigger s.bans[i]]
        0 <= i < s.bans.len() && now < s.bans[i].1.start + s.bans[i].1.duration && ({
            ||| s.bans[i].1.kind != BanType::Ip && s.bans[i].1.user_id == Some(user_id)
            ||| s.bans[i].1.kind != BanType::UserId && s.bans[i].1.ip_address == Some(ip)
        }) {
        let i = choose|i: int|
            #![trigger s.bans[i]]
            0 <= i < s.bans.len() && now < s.bans[i].1.start + s.bans[i].1.duration && ({
                ||| s.bans[i].1.kind != BanType::Ip && s.bans[i].1.user_id == Some(user_id)
                ||| s.bans[i].1.kind != BanType::UserId && s.bans[i].1.ip_address == Some(ip)
            });
        assert(ban::bans_user(s.bans, i, user_id, now) || ban::bans_ip(s.bans, i, ip, now));
    }
}

/// Whoever comes in is there with their new connection, under their own number, and where they
/// were before if they were there; everybody else is as they were, and so is every room.
pub proof fn law_coming_in(
    s: ServerModel,
    session: u128,
    p: Profile,
    ip: Seq<char>,
    now: u64,
    other: i32,
    elsewhere: u128,
)
    ensures
        ({
            let t = welcomed(s, session, p, ip, now).0;
            &&& t.world.rooms == s.world.rooms
            &&& t.world.replays == s.world.replays
            &&& t.world.hub.out == s.world.hub.out
            &&& t.bans == s.bans
            &&& t.maintenance == s.maintenance
            &&& t.whitelist == s.whitelist
            &&& table::lookup(t.sessions, session) == Some(p.id)
            &&& table::lookup(t.infos, session) matches Some(i) && i.user_id == p.id && i.user_name
                == p.name@ && i.ip_address == ip && i.connect_time == now
            &&& elsewhere != session ==> table::lookup(t.sessions, elsewhere) == table::lookup(
                s.sessions,
                elsewhere,
            ) && table::lookup(t.infos, elsewhere) == table::lookup(s.infos, elsewhere)
            &&& table::lookup(t.world.hub.users, p.id) matches Some(k) && {
                &&& k.session == Some(session)
                &&& k.dangle_mark is None
                &&& match table::lookup(s.world.hub.users, p.id) {
                    Some(u) => k.id == u.id && k.name == u.name && k.lang == u.lang && k.room
                        == u.room && k.monitor == u.monitor && k.game_time == u.game_time,
                    None => k.id == p.id && k.name == p.name@ && k.lang == p.language@
                        && k.room is None && !k.monitor,
                }
            }
            &&& other != p.id ==> table::lookup(t.world.hub.users, other) == table::lookup(
                s.world.hub.users,
                other,
            )
        }),
{
    let u = arrived(s.world, p, session);
    table::lemma_put_lookup(s.world.hub.users, p.id, u, p.id);
    table::lemma_put_lookup(s.world.hub.users, p.id, u, other);
    table::lemma_put_lookup(s.sessions, session, p.id, session);
    table::lemma_put_lookup(s.sessions, session, p.id, elsewhere);
    let i = SessionModel { user_id: p.id, user_name: p.name@, ip_address: ip, connect_time: now };
    table::lemma_put_lookup(s.infos, session, i, session);
    table::lemma_put_lookup(s.infos, session, i, elsewhere);
}

/// What someone who comes in is told: who they are, and the room that they are in, if they are in
/// one, with whether they are its host and whether they are ready.
pub proof fn law_told_where(
    s: ServerModel,
    session: u128,
    p: Profile,
    ip: Seq<char>,
    now: u64,
    u: UserModel,
)
    requires
        table::lookup(s.world.hub.users, p.id) == Some(u),
    ensures
        welcomed(s, session, p, ip, now).1 matches ServerCommandModel::Authenticate(Ok((me, place)))
            && {
            &&& me.id == u.id
            &&& me.name == u.name
            &&& me.monitor == u.monitor
            &&& u.room is None ==> place is None
            &&& u.room matches Some(h) ==> match table::lookup(s.world.rooms, h) {
                Some(r) => place matches Some(c) && {
                    &&& c.id == r.id
                    &&& c.live == r.live
                    &&& c.locked == r.locked
                    &&& c.cycle == r.cycle
                    &&& c.is_host == (r.host == Some(p.id))
                    &&& c.is_ready == (r.phase matches room::Phase::WaitForReady { started }
                        && started.contains(p.id))
                },
                None => place is None,
            }
        },
{
    let k = arrived(s.world, p, session);
    table::lemma_put_lookup(s.world.hub.users, p.id, k, p.id);
}

/// Whoever is forgotten is not known any more, nor in any room, nor its host; everybody else is
/// where they were, in the same order.
pub proof fn law_forgetting(w: WorldModel, uid: i32, other: i32, i: int)
    requires
        table::distinct(w.hub.users),
        0 <= i < w.rooms.len(),
    ensures
        ({
            let v = forgotten(w, uid);
            &&& table::lookup(v.hub.users, uid) is None
            &&& other != uid ==> table::lookup(v.hub.users, other) == table::lookup(
                w.hub.users,
                other,
            )
            &&& v.hub.out == w.hub.out
            &&& v.hub.charts == w.hub.charts
            &&& v.replays == w.replays
            &&& v.rooms.len() == w.rooms.len()
            &&& v.rooms[i].0 == w.rooms[i].0
            &&& v.rooms[i].1.users == w.rooms[i].1.users.filter(|x: i32| x != uid)
            &&& v.rooms[i].1.monitors == w.rooms[i].1.monitors.filter(|x: i32| x != uid)
            &&& v.rooms[i].1.host == (if w.rooms[i].1.host == Some(uid) {
                None
            } else {
                w.rooms[i].1.host
            })
            &&& v.rooms[i].1.phase == w.rooms[i].1.phase
            &&& v.rooms[i].1.listed == w.rooms[i].1.listed
            &&& v.rooms[i].1.id == w.rooms[i].1.id
        }),
{
    table::lemma_without_lookup(w.hub.users, uid, other);
    laws::law_dropped(w.rooms[i].1.users, uid);
    laws::law_dropped(w.rooms[i].1.monitors, uid);
}

/// A user whose connection is lost during a game is out of it at once and forgotten; else they
/// are waited for.
pub proof fn law_lost_in_game(
    w: WorldModel,
    uid: i32,
    u: UserModel,
    h: u64,
    r: RoomModel,
    mark: u64,
    pick: Option<i32>,
    other: i32,
)
    requires
        table::lookup(w.hub.users, uid) == Some(u),
        u.room == Some(h),
        table::lookup(w.rooms, h) == Some(r),
    ensures
        r.phase is Playing ==> dangled(w, uid, mark, pick) == forgotten(
            world::left_room(w, uid, pick),
            uid,
        ),
        !(r.phase is Playing) ==> {
            let v = dangled(w, uid, mark, pick);
            &&& v.rooms == w.rooms
            &&& table::lookup(v.hub.users, uid) == Some(UserModel { dangle_mark: Some(mark), ..u })
            &&& other != uid ==> table::lookup(v.hub.users, other) == table::lookup(
                w.hub.users,
                other,
            )
            &&& v.hub.out == w.hub.out.push(EffectModel::GiveUp { user: uid, mark })
        },
{
    table::lemma_put_lookup(w.hub.users, uid, UserModel { dangle_mark: Some(mark), ..u }, uid);
    table::lemma_put_lookup(w.hub.users, uid, UserModel { dangle_mark: Some(mark), ..u }, other);
}

/// A lost user is given up only if they have not come back since, and were not lost again: then
/// they leave their room and are forgotten. Else nothing happens.
pub proof fn law_giving_up(w: WorldModel, uid: i32, mark: u64, pick: Option<i32>)
    ensures
        (table::lookup(w.hub.users, uid) matches Some(u) ==> u.dangle_mark != Some(mark)
            || u.room is None) ==> given_up(w, uid, mark, pick) == w,
        (table::lookup(w.hub.users, uid) matches Some(u) && u.dangle_mark == Some(mark) && (
        u.room matches Some(h) && table::lookup(w.rooms, h) is Some)) ==> given_up(
            w,
            uid,
            mark,
            pick,
        ) == forgotten(world::left_room(w, uid, pick), uid),
{
}

/// A lost connection is gone, and no other; its user is lost with it only if it was the one they
/// were on.
pub proof fn law_losing(s: ServerModel, id: u128, pick: Option<i32>, elsewhere: u128)
    requires
        table::distinct(s.sessions),
        table::distinct(s.infos),
    ensures
        ({
            let t = connection_lost(s, id, pick);
            &&& table::lookup(t.sessions, id) is None
            &&& table::lookup(t.infos, id) is None
            &&& elsewhere != id ==> table::lookup(t.sessions, elsewhere) == table::lookup(
                s.sessions,
                elsewhere,
            ) && table::lookup(t.infos, elsewhere) == table::lookup(s.infos, elsewhere)
            &&& t.bans == s.bans
            &&& t.maintenance == s.maintenance
            &&& t.whitelist == s.whitelist
            &&& (table::lookup(s.sessions, id) matches Some(uid) ==> (table::lookup(
                s.world.hub.users,
                uid,
            ) matches Some(u) ==> u.session != Some(id))) ==> t.world.rooms == s.world.rooms
                && t.world.hub.users == s.world.hub.users
            &&& (table::lookup(s.sessions, id) matches Some(uid) && (table::lookup(
                s.world.hub.users,
                uid,
            ) matches Some(u) && u.session == Some(id))) ==> {
                let uid = table::lookup(s.sessions, id)->Some_0;
                let d = dangled(s.world, uid, s.next_mark, pick);
                &&& t.world.rooms == d.rooms
                &&& t.world.hub.users == d.hub.users
                &&& s.next_mark < u64::MAX ==> t.next_mark == s.next_mark + 1
            }
        }),
{
    table::lemma_without_lookup(s.sessions, id, elsewhere);
    table::lemma_without_lookup(s.infos, id, elsewhere);
}

/// The sessions that are found are those of the user and those from the address that are looked
/// for, all of them and no others.
pub proof fn law_sessions_found(
    infos: Seq<(u128, SessionModel)>,
    user_id: Option<i32>,
    ip: Option<Seq<char>>,
    id: u128,
)
    ensures
        sessions_of(infos, user_id, ip).contains(id) <==> exists|i: int|
            0 <= i < infos.len() && (#[trigger] infos[i]).0 == id && (user_id == Some(
                infos[i].1.user_id,
            ) || ip == Some(infos[i].1.ip_address)),
    decreases infos.len(),
{
    if infos.len() > 0 {
        let rest = infos.drop_last();
        let front = sessions_of(rest, user_id, ip);
        let all = sessions_of(infos, user_id, ip);
        law_sessions_found(rest, user_id, ip, id);
        if all.contains(id) {
            let k = choose|k: int| 0 <= k < all.len() && all[k] == id;
            if k < front.len() {
                assert(front[k] == id);
                let i = choose|i: int|
                    0 <= i < rest.len() && (#[trigger] rest[i]).0 == id && (user_id == Some(
                        rest[i].1.user_id,
                    ) || ip == Some(rest[i].1.ip_address));
                assert(infos[i].0 == id);
            } else {
                assert(infos[infos.len() - 1].0 == id);
            }
        }
        if exists|i: int|
            0 <= i < infos.len() && (#[trigger] infos[i]).0 == id && (user_id == Some(
                infos[i].1.user_id,
            ) || ip == Some(infos[i].1.ip_address)) {
            let i = choose|i: int|
                0 <= i < infos.len() && (#[trigger] infos[i]).0 == id && (user_id == Some(
                    infos[i].1.user_id,
                ) || ip == Some(infos[i].1.ip_address));
            if i < rest.len() {
                assert(rest[i].0 == id);
                let k = choose|k: int| 0 <= k < front.len() && front[k] == id;
                assert(all[k] == id);
            } else {
                assert(all[all.len() - 1] == id);
            }
        }
    }
}

/// The sessions that are forgotten are gone, and the others are as they were.
pub proof fn law_sessions_forgotten<V>(s: Seq<(u128, V)>, ids: Seq<u128>, id: u128)
    requires
        table::distinct(s),
    ensures
        table::distinct(all_without(s, ids)),
        ids.contains(id) ==> table::lookup(all_without(s, ids), id) is None,
        !ids.contains(id) ==> table::lookup(all_without(s, ids), id) == table::lookup(s, id),
    decreases ids.len(),
{
    if ids.len() > 0 {
        let front = ids.drop_last();
        law_sessions_forgotten(s, front, id);
        table::lemma_without_lookup(all_without(s, front), ids.last(), id);
        if ids.contains(id) && ids.last() != id {
            let i = choose|i: int| 0 <= i < ids.len() && ids[i] == id;
            assert(front[i] == id);
        }
        if front.contains(id) {
            let i = choose|i: int| 0 <= i < front.len() && front[i] == id;
            assert(ids[i] == id);
        }
        if ids.last() == id {
            assert(ids[ids.len() - 1] == id);
        }
    }
}

} // verus!
