//! What can be asked about rooms and players.
use crate::admin;
use crate::admin::Refused;
use crate::auth;
use crate::hub::{User, UserModel};
use crate::replay;
use crate::room;
use crate::room::{InternalRoomState, Room, RoomModel};
use crate::server;
use crate::server::CurrentChart;
use crate::stats;
use crate::stats::{PlayerJudgementStats, StatsModel};
use crate::table;
use crate::table::Table;
use crate::text;
use crate::world;
use crate::world::{World, WorldModel};
use vstd::prelude::*;
use vstd::string::*;
use vstd::utf8::*;

verus! {

broadcast use table::group_views;

/// A player, for those who ask about them.
#[derive(Debug, PartialEq, Eq)]
pub struct PlayerInfo {
    pub id: i32,
    pub name: String,
    pub room_id: String,
    pub state: String,
    pub stats: PlayerJudgementStats,
}

/// What a [`PlayerInfo`] means.
#[verifier::ext_equal]
pub struct PlayerModel {
    pub id: i32,
    pub name: Seq<char>,
    pub room_id: Seq<char>,
    pub state: Seq<char>,
    pub stats: StatsModel,
}

impl View for PlayerInfo {
    type V = PlayerModel;

    open spec fn view(&self) -> PlayerModel {
        PlayerModel {
            id: self.id,
            name: self.name@,
            room_id: self.room_id@,
            state: self.state@,
            stats: self.stats@,
        }
    }
}

/// The totals of a player among those of a room, or those of one who has hit nothing yet.
pub open spec fn totals(s: Seq<(i32, StatsModel)>, u: UserModel) -> StatsModel
    decreases s.len(),
{
    if s.len() == 0 {
        stats::new_stats(u.id, u.name)
    } else if s[0].1.user_id == u.id {
        s[0].1
    } else {
        totals(s.skip(1), u)
    }
}

/// A player of a room.
pub open spec fn player_info(r: RoomModel, u: UserModel) -> PlayerModel {
    PlayerModel {
        id: u.id,
        name: u.name,
        room_id: r.id,
        state: if r.phase is Playing {
            "playing"@
        } else {
            "online"@
        },
        stats: totals(r.stats, u),
    }
}

/// The players of a room among `ids` who have a name, in any case; `name` is in lower case.
pub open spec fn named_in(
    r: RoomModel,
    ids: Seq<i32>,
    users: Seq<(i32, UserModel)>,
    name: Seq<char>,
) -> Seq<PlayerModel>
    decreases ids.len(),
{
    if ids.len() == 0 {
        Seq::empty()
    } else {
        let front = named_in(r, ids.drop_last(), users, name);
        match table::lookup(users, ids.last()) {
            Some(u) => if text::lower(u.name) == name {
                front.push(player_info(r, u))
            } else {
                front
            },
            None => front,
        }
    }
}

/// The players who have a name, in any case, in all rooms that can be found.
pub open spec fn named(
    rooms: Seq<(u64, RoomModel)>,
    users: Seq<(i32, UserModel)>,
    name: Seq<char>,
) -> Seq<PlayerModel>
    decreases rooms.len(),
{
    if rooms.len() == 0 {
        Seq::empty()
    } else {
        let front = named(rooms.drop_last(), users, name);
        let r = rooms.last().1;
        if r.listed {
            front + named_in(r, r.users, users, name)
        } else {
            front
        }
    }
}

impl Room {
    /// The totals of a player, or those of one who has hit nothing yet.
    fn totals_of(&self, user: &User) -> (res: PlayerJudgementStats)
        ensures
            res@ == totals(self@.stats, user@),
    {
        let ghost all = self@.stats;
        let mut i: usize = 0;
        assert(all.skip(0) =~= all);
        while i < self.judgement_stats.len()
            invariant
                i <= self.judgement_stats@.len(),
                all == self@.stats,
                totals(all, user@) == totals(all.skip(i as int), user@),
            decreases self.judgement_stats@.len() - i,
        {
            let ghost here = all.skip(i as int);
            let t = self.judgement_stats.value(i);
            assert(here[0].1 == t@);
            if t.user_id == user.id {
                return t.duplicate();
            }
            assert(here.skip(1) =~= all.skip(i + 1));
            i += 1;
        }
        PlayerJudgementStats::new(user.id, user.name.clone())
    }

    /// The players who have a name, in any case; `name` is in lower case.
    pub fn players_named(&self, users: &Table<i32, User>, name: &str) -> (res: Vec<PlayerInfo>)
        ensures
            replay::list_views(res@) == named_in(self@, self@.users, table::views(users@), name@),
    {
        let mut res: Vec<PlayerInfo> = Vec::new();
        let mut i: usize = 0;
        assert(self.users@.take(0) =~= Seq::empty());
        assert(replay::list_views(res@) =~= Seq::empty());
        while i < self.users.len()
            invariant
                i <= self.users.len(),
                replay::list_views(res@) == named_in(
                    self@,
                    self.users@.take(i as int),
                    table::views(users@),
                    name@,
                ),
            decreases self.users.len() - i,
        {
            assert(self.users@.take(i + 1).drop_last() =~= self.users@.take(i as int));
            if let Some(user) = users.get(&self.users[i]) {
                let lower: String = text::to_lowercase(user.name.as_str());
                if text::same(lower.as_str(), name) {
                    let state: &str = if matches!(self.state, InternalRoomState::Playing { .. }) {
                        "playing"
                    } else {
                        "online"
                    };
                    let info = PlayerInfo {
                        id: user.id,
                        name: user.name.clone(),
                        room_id: self.id.to_string(),
                        state: state.to_owned(),
                        stats: self.totals_of(user),
                    };
                    assert(info@ =~= player_info(self@, user@));
                    let ghost before = res@;
                    res.push(info);
                    assert(replay::list_views(res@) =~= replay::list_views(before).push(info@));
                }
            }
            i += 1;
        }
        assert(self.users@.take(i as int) =~= self.users@);
        res
    }
}

impl World {
    /// The players who have a name that is given in lower case.
    pub fn players_with_lower_name(&self, name: &str) -> (res: Vec<PlayerInfo>)
        ensures
            replay::list_views(res@) == named(self@.rooms, self@.hub.users, name@),
    {
        let ghost rooms = self@.rooms;
        let mut res: Vec<PlayerInfo> = Vec::new();
        let mut i: usize = 0;
        assert(rooms.take(0) =~= Seq::empty());
        assert(replay::list_views(res@) =~= Seq::empty());
        while i < self.rooms.len()
            invariant
                i <= self.rooms@.len(),
                rooms == self@.rooms,
                replay::list_views(res@) == named(
                    rooms.take(i as int),
                    self@.hub.users,
                    name@,
                ),
            decreases self.rooms@.len() - i,
        {
            let room = self.rooms.value(i);
            proof {
                assert(rooms.take(i + 1).drop_last() =~= rooms.take(i as int));
                assert(rooms[i as int].1 == room@);
            }
            if room.listed {
                let mut here: Vec<PlayerInfo> = room.players_named(&self.hub.users, name);
                let ghost before = res@;
                let ghost more = here@;
                res.append(&mut here);
                assert(replay::list_views(res@) =~= replay::list_views(before)
                    + replay::list_views(more));
            }
            i += 1;
        }
        assert(rooms.take(i as int) =~= rooms);
        res
    }

    /// The players who have a name, in any case.
    pub fn find_players(&self, name: &str) -> (res: Vec<PlayerInfo>)
        ensures
            replay::list_views(res@) == named(
                self@.rooms,
                self@.hub.users,
                text::lower(name@),
            ),
    {
        let lower: String = text::to_lowercase(name);
        self.players_with_lower_name(lower.as_str())
    }

    /// One of the players who have a name, in any case.
    pub fn find_player(&self, name: &str) -> (res: Option<PlayerInfo>)
        ensures
            match res {
                Some(p) => named(
                    self@.rooms,
                    self@.hub.users,
                    text::lower(name@),
                ).len() > 0 && p@ == named(
                    self@.rooms,
                    self@.hub.users,
                    text::lower(name@),
                )[0],
                None => named(self@.rooms, self@.hub.users, text::lower(name@)).len() == 0,
            },
    {
        let mut all: Vec<PlayerInfo> = self.find_players(name);
        if all.len() > 0 {
            let ghost before = all@;
            let first: PlayerInfo = all.remove(0);
            assert(first == before[0]);
            assert(replay::list_views(before)[0] == first@);
            Some(first)
        } else {
            None
        }
    }

    /// Leaves a shared chart with the server.
    pub fn store_chart(&mut self, id: String, data: Vec<u8>)
        ensures
            final(self)@ == (WorldModel {
                hub: crate::hub::HubModel {
                    charts: table::put(old(self)@.hub.charts, id@, data@),
                    ..old(self)@.hub
                },
                ..old(self)@
            }),
    {
        let _ = self.hub.chart_cache.insert(id, data);
    }

    /// A shared chart, for those who come by the web.
    pub fn fetch_chart(&self, id: &String) -> (res: Result<&Vec<u8>, Refused>)
        ensures
            match table::lookup(self@.hub.charts, id@) {
                Some(data) => res matches Ok(d) && d@ == data,
                None => res matches Err(e) && e@ == (404u16, "chart not found"@),
            },
    {
        match self.hub.chart_cache.get(id) {
            Some(data) => Ok(data),
            None => Err(Refused { status: 404, text: "chart not found".to_owned() }),
        }
    }
}

/// A room, for those who ask about it.
#[derive(Debug, PartialEq, Eq)]
pub struct RoomDetail {
    pub id: String,
    pub player_count: usize,
    pub state: String,
    pub mode: String,
    pub locked: bool,
    pub players: Vec<String>,
    pub current_chart: Option<CurrentChart>,
}

/// What a [`RoomDetail`] means.
#[verifier::ext_equal]
pub struct DetailModel {
    pub id: Seq<char>,
    pub player_count: nat,
    pub state: Seq<char>,
    pub mode: Seq<char>,
    pub locked: bool,
    pub players: Seq<Seq<char>>,
    pub current_chart: Option<(i32, Seq<char>)>,
}

impl View for RoomDetail {
    type V = DetailModel;

    open spec fn view(&self) -> DetailModel {
        DetailModel {
            id: self.id@,
            player_count: self.player_count as nat,
            state: self.state@,
            mode: self.mode@,
            locked: self.locked,
            players: replay::list_views(self.players@),
            current_chart: server::current_view(self.current_chart),
        }
    }
}

/// A room, for those who ask about it.
pub open spec fn detail_of(r: RoomModel, users: Seq<(i32, UserModel)>) -> DetailModel {
    DetailModel {
        id: r.id,
        player_count: server::names_of(r.users, users).len(),
        state: server::state_words(r),
        mode: server::mode_words(r),
        locked: r.locked,
        players: server::names_of(r.users, users),
        current_chart: server::chart_of(r),
    }
}

/// The room that someone with a token asks about.
pub open spec fn watched_room(w: WorldModel, token: Seq<char>, id: Seq<char>) -> Result<
    (u64, RoomModel),
    (u16, Seq<char>),
> {
    if !auth::valid_token(token) {
        Err((401, "未授权"@))
    } else {
        admin::requested(w, id)
    }
}

impl World {
    /// A room, for those who ask about it.
    pub fn room_detail(&self, id: &String) -> (res: Result<RoomDetail, Refused>)
        requires
            world::wf(self@),
        ensures
            match admin::requested(self@, id@) {
                Ok((_, r)) => res matches Ok(d) && d@ == detail_of(r, self@.hub.users),
                Err(e) => res matches Err(x) && x@ == e,
            },
    {
        let h: u64 = match self.find_room(id) {
            Ok(h) => h,
            Err(e) => {
                return Err(e);
            },
        };
        proof {
            world::lemma_listed(self@.rooms, id@);
        }
        match self.rooms.get(&h) {
            Some(room) => {
                let players: Vec<String> = room.player_names(&self.hub.users);
                assert(players@.len() == replay::list_views(players@).len());
                let detail = RoomDetail {
                    id: room.id.to_string(),
                    player_count: players.len(),
                    state: room.state_words().to_owned(),
                    mode: room.mode_words().to_owned(),
                    locked: room.locked,
                    players,
                    current_chart: room.current_chart(),
                };
                assert(detail@ =~= detail_of(room@, self@.hub.users));
                Ok(detail)
            },
            None => Err(Refused { status: 404, text: "房间不存在".to_owned() }),
        }
    }

    /// The number of the room that someone with a token asks about.
    pub fn watch_room(&self, token: &str, id: &String) -> (res: Result<u64, Refused>)
        ensures
            match watched_room(self@, token@, id@) {
                Ok((h, _)) => res == Ok::<u64, Refused>(h),
                Err(e) => res matches Err(x) && x@ == e,
            },
    {
        if auth::is_valid_token(token) {
            self.find_room(id)
        } else {
            Err(Refused { status: 401, text: "未授权".to_owned() })
        }
    }

    /// The totals of the players of the room of number `h`.
    pub fn room_stats(&self, h: u64) -> (res: Vec<PlayerJudgementStats>)
        ensures
            replay::list_views(res@) == (match table::lookup(self@.rooms, h) {
                Some(r) => room::all_stats(r),
                None => Seq::empty(),
            }),
    {
        match self.rooms.get(&h) {
            Some(room) => room.stats_list(),
            None => {
                let res: Vec<PlayerJudgementStats> = Vec::new();
                assert(replay::list_views(res@) =~= Seq::empty());
                res
            },
        }
    }
}

/// Whether there is news: nothing was published yet, or something else.
pub fn is_news(last: &Option<String>, current: &str) -> (res: bool)
    ensures
        res == !(last matches Some(l) && l@ == current@),
{
    match last {
        Some(l) => !text::same(l.as_str(), current),
        None => true,
    }
}

/// Whoever is found has the name that was asked for, and is in a room that can be found.
pub proof fn law_found_players(
    rooms: Seq<(u64, RoomModel)>,
    users: Seq<(i32, UserModel)>,
    name: Seq<char>,
    i: int,
)
    requires
        0 <= i < named(rooms, users, name).len(),
    ensures
        text::lower(named(rooms, users, name)[i].name) == name,
        exists|j: int|
            0 <= j < rooms.len() && (#[trigger] rooms[j]).1.listed && rooms[j].1.id == named(
                rooms,
                users,
                name,
            )[i].room_id,
    decreases rooms.len(),
{
    let front = named(rooms.drop_last(), users, name);
    let r = rooms.last().1;
    if i < front.len() {
        law_found_players(rooms.drop_last(), users, name, i);
        let j = choose|j: int|
            0 <= j < rooms.drop_last().len() && (#[trigger] rooms.drop_last()[j]).1.listed
                && rooms.drop_last()[j].1.id == front[i].room_id;
        assert(rooms[j] == rooms.drop_last()[j]);
    } else {
        lemma_named_in(r, r.users, users, name, i - front.len());
        assert(rooms[rooms.len() - 1].1 == r);
    }
}

/// Whoever is found in a room has the name that was asked for.
proof fn lemma_named_in(
    r: RoomModel,
    ids: Seq<i32>,
    users: Seq<(i32, UserModel)>,
    name: Seq<char>,
    i: int,
)
    requires
        0 <= i < named_in(r, ids, users, name).len(),
    ensures
        text::lower(named_in(r, ids, users, name)[i].name) == name,
        named_in(r, ids, users, name)[i].room_id == r.id,
    decreases ids.len(),
{
    let front = named_in(r, ids.drop_last(), users, name);
    if i < front.len() {
        lemma_named_in(r, ids.drop_last(), users, name, i);
    }
}

/// What is told of a player who is found: who they are, which room they are in, whether it plays,
/// and what they have hit there so far.
pub proof fn law_player_told(r: RoomModel, u: UserModel, i: int)
    requires
        0 <= i < r.stats.len(),
        r.stats[i].1.user_id == u.id,
        forall|j: int| 0 <= j < i ==> (#[trigger] r.stats[j]).1.user_id != u.id,
    ensures
        ({
            let p = player_info(r, u);
            &&& p.id == u.id
            &&& p.name == u.name
            &&& p.room_id == r.id
            &&& r.phase is Playing ==> p.state == "playing"@
            &&& !(r.phase is Playing) ==> p.state == "online"@
            &&& p.stats == r.stats[i].1
        }),
{
    lemma_totals(r.stats, u, i);
}

/// The totals of a player are the first that are theirs.
proof fn lemma_totals(s: Seq<(i32, StatsModel)>, u: UserModel, i: int)
    requires
        0 <= i < s.len(),
        s[i].1.user_id == u.id,
        forall|j: int| 0 <= j < i ==> (#[trigger] s[j]).1.user_id != u.id,
    ensures
        totals(s, u) == s[i].1,
    decreases s.len(),
{
    if i > 0 {
        let rest = s.skip(1);
        assert(s[0].1.user_id != u.id);
        assert(rest[i - 1] == s[i]);
        assert forall|j: int| 0 <= j < i - 1 implies (#[trigger] rest[j]).1.user_id != u.id by {
            assert(rest[j] == s[j + 1]);
        }
        lemma_totals(rest, u, i - 1);
    }
}

/// Of a player who has hit nothing it is told that they have not.
pub proof fn law_nothing_hit(s: Seq<(i32, StatsModel)>, u: UserModel)
    requires
        forall|j: int| 0 <= j < s.len() ==> (#[trigger] s[j]).1.user_id != u.id,
    ensures
        ({
            let t = totals(s, u);
            t.user_id == u.id && t.user_name == u.name && t.score == 0 && t.perfect == 0 && t.good
                == 0 && t.bad == 0 && t.miss == 0 && t.max_combo == 0 && t.current_combo == 0
        }),
    decreases s.len(),
{
    if s.len() > 0 {
        let rest = s.skip(1);
        assert forall|j: int| 0 <= j < rest.len() implies (#[trigger] rest[j]).1.user_id
            != u.id by {
            assert(rest[j] == s[j + 1]);
        }
        assert(s[0].1.user_id != u.id);
        law_nothing_hit(rest, u);
    }
}

/// Every player of a room that can be found is found by their name, whatever its case.
pub proof fn law_every_player_found(
    rooms: Seq<(u64, RoomModel)>,
    users: Seq<(i32, UserModel)>,
    name: Seq<char>,
    i: int,
    k: int,
    u: UserModel,
)
    requires
        0 <= i < rooms.len(),
        rooms[i].1.listed,
        0 <= k < rooms[i].1.users.len(),
        table::lookup(users, rooms[i].1.users[k]) == Some(u),
        text::lower(u.name) == name,
    ensures
        named(rooms, users, name).contains(player_info(rooms[i].1, u)),
    decreases rooms.len(),
{
    let rest = rooms.drop_last();
    let front = named(rest, users, name);
    let all = named(rooms, users, name);
    let p = player_info(rooms[i].1, u);
    if i < rest.len() {
        assert(rest[i] == rooms[i]);
        law_every_player_found(rest, users, name, i, k, u);
        let n = choose|n: int| 0 <= n < front.len() && front[n] == p;
        assert(all[n] == p);
    } else {
        let r = rooms[i].1;
        lemma_found_in(r, r.users, users, name, k, u);
        let here = named_in(r, r.users, users, name);
        let n = choose|n: int| 0 <= n < here.len() && here[n] == p;
        assert(all[front.len() + n] == p);
    }
}

/// Every player of a room is found in it by their name.
proof fn lemma_found_in(
    r: RoomModel,
    ids: Seq<i32>,
    users: Seq<(i32, UserModel)>,
    name: Seq<char>,
    k: int,
    u: UserModel,
)
    requires
        0 <= k < ids.len(),
        table::lookup(users, ids[k]) == Some(u),
        text::lower(u.name) == name,
    ensures
        named_in(r, ids, users, name).contains(player_info(r, u)),
    decreases ids.len(),
{
    let rest = ids.drop_last();
    let front = named_in(r, rest, users, name);
    let all = named_in(r, ids, users, name);
    if k < rest.len() {
        assert(rest[k] == ids[k]);
        lemma_found_in(r, rest, users, name, k, u);
        let n = choose|n: int| 0 <= n < front.len() && front[n] == player_info(r, u);
        assert(all[n] == player_info(r, u));
    } else {
        assert(all[all.len() - 1] == player_info(r, u));
    }
}

/// What someone who asks about a room is told: what the list of rooms tells, but for
/// administrators.
pub proof fn law_detail_told(r: RoomModel, users: Seq<(i32, UserModel)>)
    ensures
        ({
            let d = detail_of(r, users);
            &&& d.id == r.id
            &&& d.players == server::names_of(r.users, users)
            &&& d.player_count == d.players.len()
            &&& d.locked == r.locked
            &&& r.phase is Playing ==> d.state == "游戏中"@
            &&& !(r.phase is Playing) && r.locked ==> d.state == "已锁定"@
            &&& !(r.phase is Playing) && !r.locked ==> d.state == "准备中"@
            &&& r.cycle ==> d.mode == "循环模式"@
            &&& !r.cycle ==> d.mode == "普通模式"@
            &&& r.chart matches Some(c) ==> d.current_chart == Some((c.id, c.name))
            &&& r.chart is None ==> d.current_chart is None
        }),
{
}

/// Only someone with the token of an administrator watches a room.
pub proof fn law_watching(w: WorldModel, token: Seq<char>, id: Seq<char>)
    ensures
        encode_utf8(token).len() != 32 ==> watched_room(w, token, id) == Err::<
            (u64, RoomModel),
            (u16, Seq<char>),
        >((401u16, "未授权"@)),
        encode_utf8(token).len() == 32 ==> watched_room(w, token, id) == admin::requested(w, id),
{
}

} // verus!
