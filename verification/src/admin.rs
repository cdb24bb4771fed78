//! What administrators do: rooms, games, messages, bans and maintenance.
use crate::ban;
use crate::bin::BinaryData;
use crate::command::{Message, MessageModel, RoomId, ServerCommand, ServerCommandModel, UserInfo};
use crate::hub;
use crate::hub::{
    Chart, ChartModel, Effect, EffectModel, Hub, HubModel, LogModel, LogText, UserModel,
};
use crate::keys;
use crate::laws;
use crate::room;
use crate::room::{InternalRoomState, Phase, Room, RoomModel, Scene};
use crate::server::{ServerModel, ServerState};
use crate::session::WATCHER_ID;
use crate::table;
use crate::text;
use crate::tidy;
use crate::upkeep;
use crate::world;
use crate::world::{World, WorldModel};
use std::collections::HashSet;
use vstd::prelude::*;
use vstd::string::*;

verus! {

broadcast use {table::group_views, vstd::std_specs::hash::group_hash_axioms};

/// The answer to a request to make a room live.
pub fn live_answer(was_live: bool) -> (res: &'static str)
    ensures
        res@ == (if was_live {
            "房间已经是live状态"@
        } else {
            "房间已设置为live状态"@
        }),
{
    if was_live {
        "房间已经是live状态"
    } else {
        "房间已设置为live状态"
    }
}

/// Why a request is refused: the status of the answer, and its text.
#[derive(Debug, PartialEq, Eq)]
pub struct Refused {
    pub status: u16,
    pub text: String,
}

impl View for Refused {
    type V = (u16, Seq<char>);

    open spec fn view(&self) -> (u16, Seq<char>) {
        (self.status, self.text@)
    }
}

/// A refusal.
fn refused(status: u16, text: &str) -> (res: Refused)
    ensures
        res@ == (status, text@),
{
    Refused { status, text: text.to_owned() }
}

/// The text of a request without a room.
pub open spec fn no_room_id() -> (u16, Seq<char>) {
    (400, "房间ID不能为空"@)
}

/// The text of a request with a room id that is none.
pub open spec fn bad_room_id() -> (u16, Seq<char>) {
    (400, "无效的房间ID格式"@)
}

/// The text of a request for a room that is not there.
pub open spec fn no_such_room() -> (u16, Seq<char>) {
    (404, "房间不存在"@)
}

/// The text of a request for a room that is there already.
pub open spec fn room_exists() -> (u16, Seq<char>) {
    (409, "房间ID已存在"@)
}

/// The room that a request is about.
pub open spec fn requested(w: WorldModel, id: Seq<char>) -> Result<
    (u64, RoomModel),
    (u16, Seq<char>),
> {
    if !RoomId::encodable(id) {
        Err(bad_room_id())
    } else {
        match world::find_listed(w.rooms, id) {
            Some(found) => Ok(found),
            None => Err(no_such_room()),
        }
    }
}

/// The room that a request is about, which must name one.
pub open spec fn named_room(w: WorldModel, id: Seq<char>) -> Result<
    (u64, RoomModel),
    (u16, Seq<char>),
> {
    if id.len() == 0 {
        Err(no_room_id())
    } else {
        requested(w, id)
    }
}

/// A new room of an administrator, with nobody in it.
pub open spec fn admin_room(id: Seq<char>, competition: bool) -> RoomModel {
    let r = room::new_room(id, None, None);
    if competition {
        RoomModel { cycle: true, competition: true, live: true, ..r }
    } else {
        r
    }
}

/// Why a room cannot be made.
pub open spec fn making_refused(w: WorldModel, id: Seq<char>) -> Option<(u16, Seq<char>)> {
    if id.len() == 0 {
        Some(no_room_id())
    } else if !RoomId::encodable(id) {
        Some(bad_room_id())
    } else if world::find_listed(w.rooms, id) is Some {
        Some(room_exists())
    } else {
        None
    }
}

/// A room of an administrator is made.
pub open spec fn room_made(s: ServerModel, id: Seq<char>, competition: bool, now: u128) -> (
    ServerModel,
    Result<(), (u16, Seq<char>)>,
) {
    match making_refused(s.world, id) {
        Some(e) => (s, Err(e)),
        None => (
            ServerModel {
                world: WorldModel {
                    rooms: table::put(
                        s.world.rooms,
                        s.world.next_room,
                        admin_room(id, competition),
                    ),
                    next_room: (s.world.next_room + 1) as u64,
                    hub: hub::emitted(s.world.hub, EffectModel::RoomsChanged),
                    ..s.world
                },
                activity: table::put(s.activity, id, now),
                admins: table::put(s.admins, id, true),
                ..s
            },
            Ok(()),
        ),
    }
}

/// The view of an answer.
pub open spec fn answer<T>(res: Result<T, Refused>) -> Result<T, (u16, Seq<char>)> {
    match res {
        Ok(t) => Ok(t),
        Err(e) => Err(e@),
    }
}

/// Someone leaves a room that is being emptied.
pub open spec fn driven_out(w: WorldModel, h: u64, uid: i32, pick: Option<i32>) -> WorldModel {
    match (world::user_of(w, uid), table::lookup(w.rooms, h)) {
        (Some(u), Some(r)) => world::with_scene(
            w,
            h,
            room::left(world::scene_in(w, r), u, pick).0,
        ),
        _ => w,
    }
}

/// Whether someone can leave a room that is being emptied.
pub open spec fn can_go(w: WorldModel, h: u64, uid: i32) -> bool {
    match (world::user_of(w, uid), table::lookup(w.rooms, h)) {
        (Some(u), Some(r)) => room::can_leave(r, u),
        _ => true,
    }
}

/// The players who may become the host when someone leaves a room that is being emptied.
pub open spec fn heirs(w: WorldModel, h: u64, uid: i32) -> Seq<i32> {
    match (world::user_of(w, uid), table::lookup(w.rooms, h)) {
        (Some(u), Some(r)) => room::successors(r, u),
        _ => Seq::empty(),
    }
}

/// Some people leave a room one after the other, and each time the pick of that time becomes
/// the host where the host has left. It ends early, and the answer is no, at someone who
/// cannot leave.
pub open spec fn emptied(w: WorldModel, h: u64, ids: Seq<i32>, picks: Seq<Option<i32>>) -> (
    WorldModel,
    bool,
)
    decreases ids.len(),
{
    if ids.len() == 0 {
        (w, true)
    } else {
        let (v, ok) = emptied(w, h, ids.drop_last(), picks);
        if ok && can_go(v, h, ids.last()) {
            (driven_out(v, h, ids.last(), picks[ids.len() - 1]), true)
        } else {
            (v, false)
        }
    }
}

/// Whether each pick is one of the players who were there at that time.
pub open spec fn picks_ok(w: WorldModel, h: u64, ids: Seq<i32>, picks: Seq<Option<i32>>) -> bool
    decreases ids.len(),
{
    if ids.len() == 0 {
        true
    } else {
        let (v, ok) = emptied(w, h, ids.drop_last(), picks);
        picks_ok(w, h, ids.drop_last(), picks) && (ok && can_go(v, h, ids.last())
            ==> room::valid_pick(picks[ids.len() - 1], heirs(v, h, ids.last())))
    }
}

/// What comes after the people of a room that is deleted have left it.
pub open spec fn deletion_ended(s: ServerModel, h: u64, id: Seq<char>, ids: Seq<i32>) -> ServerModel {
    let w = world::swept(s.world, h);
    ServerModel {
        world: world::emitted(
            world::emitted(
                world::emitted(
                    w,
                    EffectModel::Expel { users: ids, text: "房间已被管理员删除"@ },
                ),
                EffectModel::RoomsChanged,
            ),
            EffectModel::SessionsChanged,
        ),
        activity: table::without(s.activity, id),
        admins: table::without(s.admins, id),
        ..s
    }
}

/// A room is deleted; the answer is how many people were in it, or none where one of them
/// could not leave.
pub open spec fn room_deleted(
    s: ServerModel,
    h: u64,
    id: Seq<char>,
    ids: Seq<i32>,
    picks: Seq<Option<i32>>,
) -> (ServerModel, Result<Option<usize>, (u16, Seq<char>)>) {
    let (w, ok) = emptied(world::unlisted(s.world, h), h, ids, picks);
    let t = ServerModel { world: w, ..s };
    if ok {
        (deletion_ended(t, h, id, ids), Ok(Some(ids.len() as usize)))
    } else {
        (t, Ok(None))
    }
}

/// Someone who leaves a room that is being emptied keeps the world.
pub proof fn law_driven_out(w: WorldModel, h: u64, uid: i32, pick: Option<i32>)
    requires
        world::wf(w),
        can_go(w, h, uid),
        room::valid_pick(pick, heirs(w, h, uid)),
    ensures
        world::wf(driven_out(w, h, uid, pick)),
{
    world::lemma_user_id(w.hub.users, uid);
    if let (Some(u), Some(r)) = (world::user_of(w, uid), table::lookup(w.rooms, h)) {
        upkeep::lemma_scene_good(w, h);
        upkeep::lemma_left(world::scene_in(w, r), u, pick);
        upkeep::lemma_with_scene(w, h, r, room::left(world::scene_in(w, r), u, pick).0);
    }
}

/// Picks beyond those that are needed do not matter.
proof fn lemma_more_picks(
    w: WorldModel,
    h: u64,
    ids: Seq<i32>,
    a: Seq<Option<i32>>,
    b: Seq<Option<i32>>,
)
    requires
        a.len() >= ids.len(),
        b.len() >= ids.len(),
        forall|i: int| 0 <= i < ids.len() ==> a[i] == #[trigger] b[i],
    ensures
        emptied(w, h, ids, a) == emptied(w, h, ids, b),
        picks_ok(w, h, ids, a) == picks_ok(w, h, ids, b),
    decreases ids.len(),
{
    if ids.len() > 0 {
        lemma_more_picks(w, h, ids.drop_last(), a, b);
        assert(a[ids.len() - 1] == b[ids.len() - 1]);
    }
}

/// A room of an administrator keeps the world.
pub proof fn law_room_made(s: ServerModel, id: Seq<char>, competition: bool, now: u128)
    requires
        world::wf(s.world),
        s.world.next_room < u64::MAX,
    ensures
        world::wf(room_made(s, id, competition, now).0.world),
{
    let w = s.world;
    let v = room_made(s, id, competition, now).0.world;
    let r = admin_room(id, competition);
    table::lemma_put_distinct(w.rooms, w.next_room, r);
    table::lemma_find(w.rooms, w.next_room);
    assert forall|i: int| 0 <= i < v.rooms.len() implies (#[trigger] v.rooms[i]).0 < v.next_room
        && world::known(v.rooms[i].1, v.hub.users) by {
        if i < w.rooms.len() {
            assert(w.rooms[i].0 < w.next_room);
            assert(world::known(w.rooms[i].1, w.hub.users));
        }
    }
}

impl World {
    /// The room that a request is about.
    pub fn find_room(&self, id: &String) -> (res: Result<u64, Refused>)
        ensures
            match requested(self@, id@) {
                Ok((h, _)) => res == Ok::<u64, Refused>(h),
                Err(e) => answer(res) == Err::<u64, (u16, Seq<char>)>(e),
            },
    {
        match RoomId::try_from(id.clone()) {
            Ok(room_id) => match self.listed_room(&room_id) {
                Some(h) => Ok(h),
                None => Err(refused(404, "房间不存在")),
            },
            Err(_) => Err(refused(400, "无效的房间ID格式")),
        }
    }

    /// The room that a request is about, which must name one.
    pub fn find_named_room(&self, id: &String) -> (res: Result<u64, Refused>)
        ensures
            match named_room(self@, id@) {
                Ok((h, _)) => res == Ok::<u64, Refused>(h),
                Err(e) => answer(res) == Err::<u64, (u16, Seq<char>)>(e),
            },
    {
        if id.as_str().unicode_len() == 0 {
            Err(refused(400, "房间ID不能为空"))
        } else {
            self.find_room(id)
        }
    }

    /// Lets some people leave a room one after the other, with a new host by chance each time
    /// that the host has left; gives whether all of them could.
    pub fn empty_room(&mut self, h: u64, ids: &Vec<i32>) -> (res: bool)
        requires
            world::wf(old(self)@),
        ensures
            world::wf(final(self)@),
            exists|picks: Seq<Option<i32>>|
                picks.len() == ids@.len() && picks_ok(old(self)@, h, ids@, picks) && (
                final(self)@,
                res,
                ) == #[trigger] emptied(old(self)@, h, ids@, picks),
    {
        let ghost start = self@;
        let ghost mut picks: Seq<Option<i32>> = Seq::empty();
        let mut i: usize = 0;
        let mut ok: bool = true;
        assert(ids@.take(0) =~= Seq::empty());
        while i < ids.len()
            invariant
                i <= ids.len(),
                world::wf(self@),
                start == old(self)@,
                picks.len() == i,
                picks_ok(start, h, ids@.take(i as int), picks),
                (self@, ok) == emptied(start, h, ids@.take(i as int), picks),
            decreases ids.len() - i,
        {
            let uid: i32 = ids[i];
            let ghost before = self@;
            let mut pick: Option<i32> = None;
            let mut allowed: bool = true;
            if let Some(user) = self.hub.users.get(&uid) {
                if let Some(room) = self.rooms.get(&h) {
                    allowed = room.leave_allowed(user);
                    let from: Vec<i32> = room.successors(user);
                    pick = room::choose_id(from.as_slice());
                }
            }
            proof {
                let more = picks.push(pick);
                let t = ids@.take(i as int);
                assert(ids@.take(i + 1).drop_last() =~= t);
                lemma_more_picks(start, h, t, picks, more);
                assert(allowed == can_go(before, h, uid));
                assert(room::valid_pick(pick, heirs(before, h, uid)));
                if ok && allowed {
                    law_driven_out(before, h, uid, pick);
                    world::lemma_user_id(before.hub.users, uid);
                }
                picks = more;
            }
            ok = ok && allowed;
            if ok && self.hub.users.contains_key(&uid) {
                if let Some(room) = self.rooms.get_mut(&h) {
                    let _ = room.leave(&mut self.hub, uid, pick);
                }
            }
            i += 1;
        }
        assert(ids@.take(i as int) =~= ids@);
        ok
    }
}

impl ServerState {
    /// Makes a room of an administrator, for a competition or not.
    pub fn make_room(&mut self, id: &String, competition: bool, now: u128) -> (res: Result<
        (),
        Refused,
    >)
        requires
            world::wf(old(self)@.world),
            old(self)@.world.next_room < u64::MAX,
        ensures
            (final(self)@, answer(res)) == room_made(old(self)@, id@, competition, now),
            world::wf(final(self)@.world),
            final(self).config == old(self).config,
            keys::keyed(old(self)@) ==> keys::keyed(final(self)@),
    {
        proof {
            if keys::keyed(self@) {
                keys::law_room_made_keyed(self@, id@, competition, now);
            }
        }
        proof {
            law_room_made(self@, id@, competition, now);
        }
        if id.as_str().unicode_len() == 0 {
            return Err(refused(400, "房间ID不能为空"));
        }
        let room_id: RoomId = match RoomId::try_from(id.clone()) {
            Ok(room_id) => room_id,
            Err(_) => {
                return Err(refused(400, "无效的房间ID格式"));
            },
        };
        if self.world.listed_room(&room_id).is_some() {
            return Err(refused(409, "房间ID已存在"));
        }
        let mut room: Room = Room::new(room_id, None, None);
        if competition {
            room.cycle = true;
            room.is_competition = true;
            room.live = true;
        }
        let h: u64 = self.world.next_room;
        let _ = self.world.rooms.insert(h, room);
        self.world.next_room = h + 1;
        self.world.hub.emit(Effect::RoomsChanged);
        let _ = self.room_last_activity.insert(id.clone(), now);
        let _ = self.admin_created_rooms.insert(id.clone(), true);
        Ok(())
    }

    /// Makes a room impossible to find before it is deleted; gives its number and everybody
    /// in it.
    pub fn begin_deletion(&mut self, id: &String) -> (res: Result<(u64, Vec<i32>), Refused>)
        requires
            world::wf(old(self)@.world),
        ensures
            match named_room(old(self)@.world, id@) {
                Ok((h, r)) => res matches Ok((n, ids)) && n == h && ids@ == room::members(r)
                    && final(self)@ == (ServerModel {
                    world: world::unlisted(old(self)@.world, h),
                    ..old(self)@
                }),
                Err(e) => res matches Err(x) && x@ == e && final(self)@ == old(self)@,
            },
            world::wf(final(self)@.world),
            final(self).config == old(self).config,
            keys::keyed(old(self)@) ==> keys::keyed(final(self)@),
    {
        let h: u64 = match self.world.find_named_room(id) {
            Ok(h) => h,
            Err(e) => {
                return Err(e);
            },
        };
        proof {
            world::lemma_listed(self@.world.rooms, id@);
            tidy::lemma_unlisted(self@.world, h);
        }
        let ids: Vec<i32> = match self.world.rooms.get(&h) {
            Some(room) => room.members(),
            None => Vec::new(),
        };
        self.world.unlist(h);
        Ok((h, ids))
    }

    /// Ends the deletion of a room that its people have left.
    pub fn end_deletion(&mut self, h: u64, id: &String, ids: &Vec<i32>)
        requires
            world::wf(old(self)@.world),
        ensures
            final(self)@ == deletion_ended(old(self)@, h, id@, ids@),
            world::wf(final(self)@.world),
            final(self).config == old(self).config,
            keys::keyed(old(self)@) ==> keys::keyed(final(self)@),
    {
        proof {
            if keys::keyed(self@) {
                keys::law_deletion_keyed(self@, h, id@, ids@);
            }
        }
        proof {
            upkeep::lemma_room_removed(self@.world, h);
        }
        self.world.sweep(h);
        let ghost mid = self@.world;
        self.world.hub.emit(
            Effect::Expel { users: room::copy_ids(ids), text: "房间已被管理员删除".to_owned() },
        );
        self.world.hub.emit(Effect::RoomsChanged);
        self.world.hub.emit(Effect::SessionsChanged);
        let _ = self.room_last_activity.remove(id);
        let _ = self.admin_created_rooms.remove(id);
        proof {
            upkeep::lemma_same_rooms(mid, self@.world);
        }
    }

    /// Deletes a room: its people leave it one after the other and are sent away. Gives how
    /// many they were, or `None` where one of them could not leave.
    pub fn delete_room(&mut self, id: &String) -> (res: Result<Option<usize>, Refused>)
        requires
            world::wf(old(self)@.world),
        ensures
            match named_room(old(self)@.world, id@) {
                Ok((h, r)) => exists|picks: Seq<Option<i32>>|
                    picks_ok(
                        world::unlisted(old(self)@.world, h),
                        h,
                        room::members(r),
                        picks,
                    ) && (final(self)@, answer(res)) == #[trigger] room_deleted(
                        old(self)@,
                        h,
                        id@,
                        room::members(r),
                        picks,
                    ),
                Err(e) => res matches Err(x) && x@ == e && final(self)@ == old(self)@,
            },
            world::wf(final(self)@.world),
            final(self).config == old(self).config,
            keys::keyed(old(self)@) ==> keys::keyed(final(self)@),
    {
        let ghost start = self@;
        match self.begin_deletion(id) {
            Ok((h, ids)) => {
                let ghost v = self@.world;
                let ok: bool = self.world.empty_room(h, &ids);
                let ghost picks = choose|picks: Seq<Option<i32>>|
                    picks.len() == ids@.len() && picks_ok(v, h, ids@, picks) && (
                    self@.world,
                    ok,
                    ) == #[trigger] emptied(v, h, ids@, picks);
                if ok {
                    self.end_deletion(h, id, &ids);
                    assert((self@, Ok::<Option<usize>, (u16, Seq<char>)>(Some(ids@.len() as usize)))
                        == room_deleted(start, h, id@, ids@, picks));
                    Ok(Some(ids.len()))
                } else {
                    assert((self@, Ok::<Option<usize>, (u16, Seq<char>)>(None)) == room_deleted(
                        start,
                        h,
                        id@,
                        ids@,
                        picks,
                    ));
                    Ok(None)
                }
            },
            Err(e) => Err(e),
        }
    }
}

/// The players of a room are told that the system is the host from now on, and the room
/// takes turns.
pub open spec fn competition_on(s: Scene) -> Scene {
    let chat = ServerCommandModel::Message(
        MessageModel::Chat { user: 0, content: "房间已切换到比赛模式，现在由系统控制"@ },
    );
    let host = ServerCommandModel::Message(MessageModel::NewHost { user: 0 });
    Scene {
        room: RoomModel { cycle: true, ..s.room },
        hub: hub::emitted(
            hub::emitted(s.hub, EffectModel::Send { to: s.room.users, cmd: chat }),
            EffectModel::Send { to: s.room.users, cmd: host },
        ),
    }
}

/// The chart of an id that nothing could be learnt of.
pub open spec fn nameless_chart(id: i32) -> ChartModel {
    ChartModel { id, name: "Chart_"@ + text::dec(id as int) }
}

/// The system chooses a chart for a room.
pub open spec fn system_chart(s: Scene, chart: ChartModel) -> Scene {
    let cmd = ServerCommandModel::Message(
        MessageModel::SelectChart { user: 0, name: chart.name, id: chart.id },
    );
    room::state_changed(
        Scene {
            room: RoomModel { chart: Some(chart), ..s.room },
            hub: hub::emitted(s.hub, EffectModel::Send { to: s.room.users, cmd }),
        },
    )
}

/// The system asks for a game: everybody has to say that they are ready.
pub open spec fn system_start(s: Scene) -> Scene {
    let t = room::times_reset(s);
    let cmd = ServerCommandModel::Message(MessageModel::GameStart { user: 0 });
    room::state_changed(
        Scene {
            room: RoomModel { phase: Phase::WaitForReady { started: Set::empty() }, ..t.room },
            hub: hub::emitted(t.hub, EffectModel::Send { to: t.room.users, cmd }),
        },
    )
}

/// The request for a game.
pub open spec fn game_requested(s: ServerModel, id: Seq<char>) -> (
    ServerModel,
    Result<(u64, bool), (u16, Seq<char>)>,
) {
    match named_room(s.world, id) {
        Ok((h, r)) => if r.chart is None {
            (s, Err((400, "房间未选择谱面，无法开始游戏"@)))
        } else {
            (
                ServerModel {
                    world: world::emitted(
                        world::with_scene(s.world, h, system_start(world::scene_in(s.world, r))),
                        EffectModel::RoomsChanged,
                    ),
                    ..s
                },
                Ok((h, table::holds(s.admins, id))),
            )
        },
        Err(e) => (s, Err(e)),
    }
}

/// Whether every player of a room is ready, and there is one.
pub open spec fn players_ready(r: RoomModel) -> bool {
    r.phase matches Phase::WaitForReady { started } && r.users.len() > 0 && forall|i: int|
        0 <= i < r.users.len() ==> started.contains(#[trigger] r.users[i])
}

/// Seconds between the last player's being ready and the game of a competition.
pub const COUNTDOWN_SECONDS: u8 = 10;

/// Milliseconds from one look at whether every player is ready to the next.
pub const READY_CHECK_MILLIS: u64 = 100;

/// Milliseconds from one second of a countdown to the next.
pub const COUNTDOWN_STEP_MILLIS: u64 = 1000;

/// How far the game of a competition is.
#[derive(Debug, Clone, Copy, PartialEq, Eq, Structural)]
pub enum Countdown {
    /// Not every player is ready; to be looked at again after [`READY_CHECK_MILLIS`].
    Waiting,
    /// So many seconds to go; to be looked at again after [`COUNTDOWN_STEP_MILLIS`].
    Counting(u8),
    /// The game has begun.
    Done,
}

/// Everybody in a room learns how many seconds there are to go.
pub open spec fn second_called(s: Scene, i: int) -> Scene {
    room::announced(
        s,
        MessageModel::Chat { user: 0, content: "游戏将在"@ + text::dec(i) + "秒后开始"@ },
    )
}

/// The game of a competition begins.
pub open spec fn competition_begun(s: Scene) -> Scene {
    let t = room::times_reset(room::announced(s, MessageModel::StartPlaying));
    room::state_changed(Scene { room: RoomModel { phase: room::fresh_game(), ..t.room }, ..t })
}

/// One more look at the game of a competition.
pub open spec fn ticked(w: WorldModel, h: u64, c: Countdown) -> (WorldModel, Countdown) {
    match table::lookup(w.rooms, h) {
        None => (w, Countdown::Done),
        Some(r) => match c {
            Countdown::Waiting => if players_ready(r) {
                (
                    world::with_scene(
                        w,
                        h,
                        second_called(world::scene_in(w, r), COUNTDOWN_SECONDS as int),
                    ),
                    Countdown::Counting(COUNTDOWN_SECONDS),
                )
            } else {
                (w, Countdown::Waiting)
            },
            Countdown::Counting(i) => if i > 1 {
                (
                    world::with_scene(w, h, second_called(world::scene_in(w, r), i - 1)),
                    Countdown::Counting((i - 1) as u8),
                )
            } else {
                (
                    world::with_scene(w, h, competition_begun(world::scene_in(w, r))),
                    Countdown::Done,
                )
            },
            Countdown::Done => (w, Countdown::Done),
        },
    }
}

/// A message of the system.
pub open spec fn system_chat(content: Seq<char>) -> ServerCommandModel {
    ServerCommandModel::Message(MessageModel::Chat { user: 0, content })
}

/// The effects of telling everybody in every room something.
pub open spec fn all_told(rooms: Seq<(u64, RoomModel)>, content: Seq<char>) -> Seq<EffectModel>
    decreases rooms.len(),
{
    if rooms.len() == 0 {
        Seq::empty()
    } else {
        let front = all_told(rooms.drop_last(), content);
        let r = rooms.last().1;
        if r.listed {
            front.push(EffectModel::Send { to: room::members(r), cmd: system_chat(content) })
        } else {
            front
        }
    }
}

/// How many people are told something in so many rooms.
pub open spec fn audience(rooms: Seq<(u64, RoomModel)>) -> (nat, nat)
    decreases rooms.len(),
{
    if rooms.len() == 0 {
        (0, 0)
    } else {
        let (a, b) = audience(rooms.drop_last());
        let r = rooms.last().1;
        if r.listed {
            (a + 1, b + room::members(r).len())
        } else {
            (a, b)
        }
    }
}

/// The message of an inspection.
pub open spec fn inspection_text(message: Option<Seq<char>>) -> Seq<char> {
    match message {
        Some(m) => m,
        None => "巡查广播：专家巡查员正在实时巡查本场竞赛，请文明游戏！"@,
    }
}

/// A message out of a group.
pub open spec fn group_text(group: Seq<char>, message: Seq<char>) -> Seq<char> {
    "来自QQ群["@ + group + "]的消息："@ + message
}

/// Everybody in a room is told something, which is logged.
pub open spec fn room_told(s: Scene, content: Seq<char>) -> Scene {
    Scene {
        hub: hub::emitted(
            hub::emitted(
                s.hub,
                EffectModel::Send { to: room::members(s.room), cmd: system_chat(content) },
            ),
            EffectModel::Log {
                room: s.room.id,
                text: LogModel::Plain("[系统广播] "@ + content),
            },
        ),
        ..s
    }
}

/// The message for a room.
pub open spec fn message_sent(w: WorldModel, id: Seq<char>, content: Seq<char>) -> (
    WorldModel,
    Result<nat, (u16, Seq<char>)>,
) {
    if content.len() == 0 {
        (w, Err((400, "消息内容不能为空"@)))
    } else {
        match requested(w, id) {
            Ok((h, r)) => (
                world::with_scene(w, h, room_told(world::scene_in(w, r), content)),
                Ok(room::members(r).len()),
            ),
            Err(e) => (w, Err(e)),
        }
    }
}

/// A command for everybody in the room about who made it, if they are known.
pub open spec fn maker_told(s: Scene, joins: bool) -> Scene {
    match s.room.creator {
        Some(c) => match table::lookup(s.hub.users, c) {
            Some(u) => room::broadcast_to(
                s,
                ServerCommandModel::Message(
                    if joins {
                        MessageModel::JoinRoom { user: u.id, name: u.name }
                    } else {
                        MessageModel::LeaveRoom { user: c, name: u.name }
                    },
                ),
            ),
            None => s,
        },
        None => s,
    }
}

/// A room becomes live; the watcher comes in, if there is one.
pub open spec fn made_live(s: Scene) -> Scene {
    match table::lookup(s.hub.users, WATCHER_ID) {
        Some(u) => {
            let t = maker_told(s, false);
            let v = Scene {
                room: RoomModel { live: true, ..room::added(t.room, u.id, true).0 },
                ..t
            };
            maker_told(
                room::broadcast_to(v, ServerCommandModel::OnJoinRoom(hub::info(u))),
                true,
            )
        },
        None => Scene { room: RoomModel { live: true, ..s.room }, ..s },
    }
}

/// The request to make a room live; the answer is whether it was live already.
pub open spec fn live_requested(w: WorldModel, id: Seq<char>) -> (
    WorldModel,
    Result<bool, (u16, Seq<char>)>,
) {
    match requested(w, id) {
        Ok((h, r)) => if !r.competition {
            (w, Err((403, "只有比赛房间可以启用Live模式"@)))
        } else if r.live {
            (w, Ok(true))
        } else {
            (world::with_scene(w, h, made_live(world::scene_in(w, r))), Ok(false))
        },
        Err(e) => (w, Err(e)),
    }
}

/// Switching to a competition keeps the world.
pub proof fn law_competition_on(w: WorldModel, h: u64)
    requires
        world::wf(w),
    ensures
        table::lookup(w.rooms, h) matches Some(r) ==> world::wf(
            world::with_scene(w, h, competition_on(world::scene_in(w, r))),
        ),
{
    if let Some(r) = table::lookup(w.rooms, h) {
        lemma_same_members(w, h, r, competition_on(world::scene_in(w, r)));
    }
}

/// A step that leaves everybody where they are keeps the world.
proof fn lemma_same_members(w: WorldModel, h: u64, r: RoomModel, t: Scene)
    requires
        world::wf(w),
        table::lookup(w.rooms, h) == Some(r),
        t.room.users == r.users,
        t.room.monitors == r.monitors,
        t.room.host == r.host,
        t.hub.users == w.hub.users || t.hub.users == hub::times_reset(w.hub.users, r.users),
    ensures
        world::wf(world::with_scene(w, h, t)),
{
    upkeep::lemma_scene_good(w, h);
    upkeep::lemma_times(w.hub.users, r.users);
    upkeep::lemma_same_refl(w.hub.users);
    upkeep::lemma_same_people(world::scene_in(w, r), t);
    upkeep::lemma_with_scene(w, h, r, t);
}

/// A request for a game keeps the world.
pub proof fn law_game_requested(s: ServerModel, id: Seq<char>)
    requires
        world::wf(s.world),
    ensures
        world::wf(game_requested(s, id).0.world),
{
    world::lemma_listed(s.world.rooms, id);
    if let Ok((h, r)) = named_room(s.world, id) {
        if r.chart is Some {
            let t = system_start(world::scene_in(s.world, r));
            lemma_same_members(s.world, h, r, t);
            upkeep::lemma_same_rooms(
                world::with_scene(s.world, h, t),
                game_requested(s, id).0.world,
            );
        }
    }
}

/// A look at the game of a competition keeps the world.
pub proof fn law_ticked(w: WorldModel, h: u64, c: Countdown)
    requires
        world::wf(w),
    ensures
        world::wf(ticked(w, h, c).0),
{
    if let Some(r) = table::lookup(w.rooms, h) {
        let s = world::scene_in(w, r);
        lemma_same_members(w, h, r, second_called(s, COUNTDOWN_SECONDS as int));
        if let Countdown::Counting(i) = c {
            lemma_same_members(w, h, r, second_called(s, i - 1));
        }
        lemma_same_members(w, h, r, competition_begun(s));
    }
}

/// Making a room live keeps the world.
pub proof fn law_live_requested(w: WorldModel, id: Seq<char>)
    requires
        world::wf(w),
    ensures
        world::wf(live_requested(w, id).0),
{
    world::lemma_listed(w.rooms, id);
    if let Ok((h, r)) = requested(w, id) {
        let s = world::scene_in(w, r);
        let t = made_live(s);
        upkeep::lemma_scene_good(w, h);
        upkeep::lemma_same_refl(w.hub.users);
        if let Some(u) = table::lookup(w.hub.users, WATCHER_ID) {
            world::lemma_user_id(w.hub.users, WATCHER_ID);
            upkeep::lemma_joined(s, WATCHER_ID, true, u);
            let mid = Scene {
                room: room::added(r, WATCHER_ID, true).0,
                hub: hub::user_set(w.hub, WATCHER_ID, u),
            };
            assert(mid.hub.users == w.hub.users);
            upkeep::lemma_same_people(mid, t);
            upkeep::lemma_steady_trans(s, mid, t);
        } else {
            upkeep::lemma_same_people(s, t);
        }
        upkeep::lemma_with_scene(w, h, r, t);
    }
}

/// A count-down runs: after ten looks at a room that stays, the game begins with the
/// eleventh.
pub proof fn law_countdown(w: WorldModel, h: u64, i: u8)
    requires
        table::lookup(w.rooms, h) is Some,
        1 <= i <= COUNTDOWN_SECONDS,
    ensures
        ({
            let (v, c) = ticked(w, h, Countdown::Counting(i));
            &&& table::lookup(v.rooms, h) matches Some(r)
            &&& if i > 1 {
                c == Countdown::Counting((i - 1) as u8) && Some(r.phase) == (
                match table::lookup(w.rooms, h) {
                    Some(q) => Some(q.phase),
                    None => None,
                })
            } else {
                c is Done && r.phase == room::fresh_game()
            }
        }),
{
    let r = table::lookup(w.rooms, h)->Some_0;
    let s = world::scene_in(w, r);
    table::lemma_put_lookup(w.rooms, h, second_called(s, i - 1).room, h);
    table::lemma_put_lookup(w.rooms, h, competition_begun(s).room, h);
}

impl World {
    /// Tells the players of a room that the system is the host from now on.
    pub fn switch_to_competition(&mut self, id: &String) -> (res: Result<(), Refused>)
        requires
            world::wf(old(self)@),
        ensures
            match named_room(old(self)@, id@) {
                Ok((h, r)) => res is Ok && final(self)@ == world::emitted(
                    world::with_scene(old(self)@, h, competition_on(world::scene_in(old(self)@, r))),
                    EffectModel::RoomsChanged,
                ),
                Err(e) => res matches Err(x) && x@ == e && final(self)@ == old(self)@,
            },
            world::wf(final(self)@),
    {
        let h: u64 = match self.find_named_room(id) {
            Ok(h) => h,
            Err(e) => {
                return Err(e);
            },
        };
        proof {
            world::lemma_listed(self@.rooms, id@);
            law_competition_on(self@, h);
        }
        if let Some(room) = self.rooms.get_mut(&h) {
            let to: Vec<i32> = room::copy_ids(&room.users);
            self.hub.emit(
                Effect::Send {
                    to,
                    cmd: ServerCommand::Message(
                        Message::Chat {
                            user: 0,
                            content: "房间已切换到比赛模式，现在由系统控制".to_owned(),
                        },
                    ),
                },
            );
            let to: Vec<i32> = room::copy_ids(&room.users);
            self.hub.emit(
                Effect::Send { to, cmd: ServerCommand::Message(Message::NewHost { user: 0 }) },
            );
            room.cycle = true;
        }
        let ghost mid = self@;
        self.hub.emit(Effect::RoomsChanged);
        proof {
            upkeep::lemma_same_rooms(mid, self@);
        }
        Ok(())
    }

    /// The system chooses a chart for the room of number `h`.
    pub fn choose_system_chart(&mut self, h: u64, chart: Chart)
        requires
            world::wf(old(self)@),
        ensures
            final(self)@ == world::emitted(
                match table::lookup(old(self)@.rooms, h) {
                    Some(r) => world::with_scene(
                        old(self)@,
                        h,
                        system_chart(world::scene_in(old(self)@, r), chart@),
                    ),
                    None => old(self)@,
                },
                EffectModel::RoomsChanged,
            ),
            world::wf(final(self)@),
    {
        proof {
            if let Some(r) = table::lookup(self@.rooms, h) {
                lemma_same_members(self@, h, r, system_chart(world::scene_in(self@, r), chart@));
            }
        }
        if let Some(room) = self.rooms.get_mut(&h) {
            let to: Vec<i32> = room::copy_ids(&room.users);
            let name: String = chart.name.clone();
            let id: i32 = chart.id;
            self.hub.emit(
                Effect::Send {
                    to,
                    cmd: ServerCommand::Message(Message::SelectChart { user: 0, name, id }),
                },
            );
            room.chart = Some(chart);
            room.on_state_change(&mut self.hub);
        }
        let ghost mid = self@;
        self.hub.emit(Effect::RoomsChanged);
        proof {
            upkeep::lemma_same_rooms(mid, self@);
        }
    }

    /// One more look at the game of a competition.
    pub fn tick(&mut self, h: u64, c: Countdown) -> (res: Countdown)
        requires
            world::wf(old(self)@),
        ensures
            (final(self)@, res) == ticked(old(self)@, h, c),
            world::wf(final(self)@),
    {
        proof {
            law_ticked(self@, h, c);
        }
        match self.rooms.get_mut(&h) {
            Some(room) => match c {
                Countdown::Waiting => {
                    if room.are_players_ready() {
                        room.call_second(&mut self.hub, COUNTDOWN_SECONDS);
                        Countdown::Counting(COUNTDOWN_SECONDS)
                    } else {
                        Countdown::Waiting
                    }
                },
                Countdown::Counting(i) => {
                    if i > 1 {
                        room.call_second(&mut self.hub, i - 1);
                        Countdown::Counting(i - 1)
                    } else {
                        room.send(&mut self.hub, Message::StartPlaying);
                        room.reset_game_time(&mut self.hub);
                        room.state = InternalRoomState::fresh_game();
                        room.on_state_change(&mut self.hub);
                        Countdown::Done
                    }
                },
                Countdown::Done => Countdown::Done,
            },
            None => Countdown::Done,
        }
    }

    /// Tells everybody in every room something; gives how many rooms and people there are.
    pub fn tell_all(&mut self, content: &str) -> (res: (usize, u64))
        requires
            audience(old(self)@.rooms).1 <= u64::MAX,
        ensures
            res.0 == audience(old(self)@.rooms).0,
            res.1 == audience(old(self)@.rooms).1,
            final(self)@ == (WorldModel {
                hub: HubModel {
                    out: old(self)@.hub.out + all_told(old(self)@.rooms, content@),
                    ..old(self)@.hub
                },
                ..old(self)@
            }),
    {
        let ghost start = self@;
        let ghost rooms = self@.rooms;
        let mut count: usize = 0;
        let mut people: u64 = 0;
        let mut i: usize = 0;
        proof {
            assert(rooms.take(0) =~= Seq::empty());
            assert(start.hub.out + all_told(rooms.take(0), content@) =~= start.hub.out);
        }
        while i < self.rooms.len()
            invariant
                i <= self.rooms@.len(),
                rooms == self@.rooms,
                audience(rooms).1 <= u64::MAX,
                count == audience(rooms.take(i as int)).0,
                people == audience(rooms.take(i as int)).1,
                count <= i,
                self@ == (WorldModel {
                    hub: HubModel {
                        out: start.hub.out + all_told(rooms.take(i as int), content@),
                        ..start.hub
                    },
                    ..start
                }),
            decreases self.rooms@.len() - i,
        {
            let room = self.rooms.value(i);
            proof {
                assert(rooms.take(i + 1).drop_last() =~= rooms.take(i as int));
                assert(rooms[i as int].1 == room@);
                lemma_audience(rooms, i + 1);
            }
            if room.listed {
                let to: Vec<i32> = room.members();
                people = people + to.len() as u64;
                count = count + 1;
                self.hub.emit(
                    Effect::Send {
                        to,
                        cmd: ServerCommand::Message(
                            Message::Chat { user: 0, content: content.to_owned() },
                        ),
                    },
                );
                assert(self@.hub.out =~= start.hub.out + all_told(
                    rooms.take(i + 1),
                    content@,
                ));
            }
            i += 1;
        }
        assert(rooms.take(i as int) =~= rooms);
        (count, people)
    }

    /// Tells everybody in a room something; gives how many they are.
    pub fn message_room(&mut self, id: &String, content: &String) -> (res: Result<usize, Refused>)
        requires
            world::wf(old(self)@),
        ensures
            match message_sent(old(self)@, id@, content@) {
                (w, Ok(n)) => (res matches Ok(m) && m == n) && final(self)@ == w,
                (w, Err(e)) => (res matches Err(x) && x@ == e) && final(self)@ == w,
            },
            world::wf(final(self)@),
    {
        if content.as_str().unicode_len() == 0 {
            return Err(refused(400, "消息内容不能为空"));
        }
        let h: u64 = match self.find_room(id) {
            Ok(h) => h,
            Err(e) => {
                return Err(e);
            },
        };
        proof {
            world::lemma_listed(self@.rooms, id@);
            if let Some(r) = table::lookup(self@.rooms, h) {
                lemma_same_members(self@, h, r, room_told(world::scene_in(self@, r), content@));
            }
        }
        let mut n: usize = 0;
        if let Some(room) = self.rooms.get_mut(&h) {
            let to: Vec<i32> = room.members();
            n = to.len();
            self.hub.emit(
                Effect::Send {
                    to,
                    cmd: ServerCommand::Message(
                        Message::Chat { user: 0, content: content.clone() },
                    ),
                },
            );
            self.hub.emit(
                Effect::Log {
                    room: room.id.clone(),
                    text: LogText::Plain(room::join2("[系统广播] ", content.as_str())),
                },
            );
        }
        Ok(n)
    }

    /// Makes a room of a competition live; gives whether it was live already.
    pub fn set_live(&mut self, id: &String) -> (res: Result<bool, Refused>)
        requires
            world::wf(old(self)@),
        ensures
            (final(self)@, answer(res)) == live_requested(old(self)@, id@),
            world::wf(final(self)@),
    {
        proof {
            law_live_requested(self@, id@);
            world::lemma_listed(self@.rooms, id@);
            world::lemma_user_id(self@.hub.users, WATCHER_ID);
        }
        let h: u64 = match self.find_room(id) {
            Ok(h) => h,
            Err(e) => {
                return Err(e);
            },
        };
        if let Some(room) = self.rooms.get_mut(&h) {
            if !room.is_competition {
                return Err(refused(403, "只有比赛房间可以启用Live模式"));
            }
            if room.is_live() {
                return Ok(true);
            }
            let info: Option<UserInfo> = match self.hub.users.get(&WATCHER_ID) {
                Some(user) => Some(user.to_info()),
                None => None,
            };
            match info {
                Some(info) => {
                    room.tell_of_maker(&mut self.hub, false);
                    let _ = room.add_user(WATCHER_ID, true);
                    room.live = true;
                    room.broadcast(&mut self.hub, ServerCommand::OnJoinRoom(info));
                    room.tell_of_maker(&mut self.hub, true);
                },
                None => {
                    room.live = true;
                },
            }
        }
        Ok(false)
    }
}

/// Fewer rooms have fewer people in them.
proof fn lemma_audience(rooms: Seq<(u64, RoomModel)>, i: int)
    requires
        0 <= i <= rooms.len(),
    ensures
        audience(rooms.take(i)).1 <= audience(rooms).1,
    decreases rooms.len(),
{
    if i < rooms.len() {
        lemma_audience(rooms.drop_last(), i);
        assert(rooms.drop_last().take(i) =~= rooms.take(i));
    } else {
        assert(rooms.take(i) =~= rooms);
    }
}

impl Room {
    /// Whether every player is ready, and there is one.
    pub fn are_players_ready(&self) -> (res: bool)
        ensures
            res == players_ready(self@),
    {
        match &self.state {
            InternalRoomState::WaitForReady { started } => {
                let mut i: usize = 0;
                while i < self.users.len()
                    invariant
                        i <= self.users.len(),
                        self@.phase == (Phase::WaitForReady { started: started@ }),
                        forall|j: int| 0 <= j < i ==> started@.contains(#[trigger] self@.users[j]),
                    decreases self.users.len() - i,
                {
                    if !started.contains(&self.users[i]) {
                        assert(!started@.contains(self@.users[i as int]));
                        return false;
                    }
                    i += 1;
                }
                self.users.len() > 0
            },
            _ => false,
        }
    }

    /// Tells everybody how many seconds there are to go.
    fn call_second(&self, hub: &mut Hub, i: u8)
        ensures
            room::scene(*self, *final(hub)) == second_called(
                room::scene(*self, *old(hub)),
                i as int,
            ),
    {
        let n: String = text::u64_text(i as u64);
        let content: String = room::join3("游戏将在", n.as_str(), "秒后开始");
        self.send(hub, Message::Chat { user: 0, content });
    }

    /// Tells everybody that the one who made the room comes or goes, if they are known.
    fn tell_of_maker(&self, hub: &mut Hub, joins: bool)
        requires
            world::ids_ok(old(hub)@.users),
        ensures
            room::scene(*self, *final(hub)) == maker_told(
                room::scene(*self, *old(hub)),
                joins,
            ),
            final(hub)@.users == old(hub)@.users,
    {
        if let Some(c) = self.creator_id {
            let name: Option<String> = match hub.users.get(&c) {
                Some(user) => Some(user.name.clone()),
                None => None,
            };
            proof {
                world::lemma_user_id(hub@.users, c);
            }
            if let Some(name) = name {
                let msg: Message = if joins {
                    Message::JoinRoom { user: c, name }
                } else {
                    Message::LeaveRoom { user: c, name }
                };
                self.broadcast(hub, ServerCommand::Message(msg));
            }
        }
    }
}

/// The chart of an id that nothing could be learnt of.
pub fn unnamed_chart(id: i32) -> (res: Chart)
    ensures
        res@ == nameless_chart(id),
{
    let n: String = text::i32_text(id);
    Chart { id, name: room::join2("Chart_", n.as_str()) }
}

/// The message of an inspection.
pub fn inspection_message(message: Option<String>) -> (res: String)
    ensures
        res@ == inspection_text(ban::opt_text(message)),
{
    match message {
        Some(m) => m,
        None => "巡查广播：专家巡查员正在实时巡查本场竞赛，请文明游戏！".to_owned(),
    }
}

/// A message out of a group, which must not be empty.
pub fn group_message(group: &str, message: &str) -> (res: Result<String, Refused>)
    ensures
        match res {
            Ok(s) => message@.len() > 0 && s@ == group_text(group@, message@),
            Err(e) => message@.len() == 0 && e@ == (400u16, "消息内容不能为空"@),
        },
{
    if message.unicode_len() == 0 {
        Err(refused(400, "消息内容不能为空"))
    } else {
        Ok(room::join4("来自QQ群[", group, "]的消息：", message))
    }
}

impl ServerState {
    /// Asks for a game in a room; gives its number and whether an administrator made it.
    pub fn request_game(&mut self, id: &String) -> (res: Result<(u64, bool), Refused>)
        requires
            world::wf(old(self)@.world),
        ensures
            (final(self)@, answer(res)) == game_requested(old(self)@, id@),
            world::wf(final(self)@.world),
            final(self).config == old(self).config,
            keys::keyed(old(self)@) ==> keys::keyed(final(self)@),
    {
        proof {
            law_game_requested(self@, id@);
            world::lemma_listed(self@.world.rooms, id@);
        }
        let h: u64 = match self.world.find_named_room(id) {
            Ok(h) => h,
            Err(e) => {
                return Err(e);
            },
        };
        let admin: bool = self.admin_created_rooms.contains_key(id);
        if let Some(room) = self.world.rooms.get_mut(&h) {
            if room.chart.is_none() {
                return Err(refused(400, "房间未选择谱面，无法开始游戏"));
            }
            room.reset_game_time(&mut self.world.hub);
            let to: Vec<i32> = room::copy_ids(&room.users);
            self.world.hub.emit(
                Effect::Send { to, cmd: ServerCommand::Message(Message::GameStart { user: 0 }) },
            );
            room.state = InternalRoomState::WaitForReady { started: HashSet::new() };
            room.on_state_change(&mut self.world.hub);
        }
        self.world.hub.emit(Effect::RoomsChanged);
        Ok((h, admin))
    }
}

/// The room that a request is about is one that can be found under the id; else the request is
/// refused, one way for an id that none can have, and another where there is no such room.
pub proof fn law_which_room(w: WorldModel, id: Seq<char>)
    ensures
        match requested(w, id) {
            Ok((h, r)) => RoomId::encodable(id) && r.listed && r.id == id && exists|i: int|
                0 <= i < w.rooms.len() && #[trigger] w.rooms[i] == (h, r),
            Err(e) => if RoomId::encodable(id) {
                e == (404u16, "房间不存在"@) && forall|i: int|
                    0 <= i < w.rooms.len() ==> !((#[trigger] w.rooms[i]).1.listed
                        && w.rooms[i].1.id == id)
            } else {
                e == (400u16, "无效的房间ID格式"@)
            },
        },
        id.len() > 0 ==> named_room(w, id) == requested(w, id),
        id.len() == 0 ==> named_room(w, id) == Err::<(u64, RoomModel), (u16, Seq<char>)>(
            (400u16, "房间ID不能为空"@),
        ),
{
    laws::law_finding(w.rooms, id);
}

/// A room of an administrator is made where its id is free: with nobody in it and no host, at
/// choosing a chart, and for a competition live and with turns. It is noted as active and as one
/// of an administrator.
pub proof fn law_making(
    s: ServerModel,
    id: Seq<char>,
    competition: bool,
    now: u128,
    k: u64,
    other: Seq<char>,
)
    requires
        s.world.next_room < u64::MAX,
    ensures
        ({
            let (t, a) = room_made(s, id, competition, now);
            let h = s.world.next_room;
            if id.len() == 0 {
                t == s && a == Err::<(), (u16, Seq<char>)>((400u16, "房间ID不能为空"@))
            } else if !RoomId::encodable(id) {
                t == s && a == Err::<(), (u16, Seq<char>)>((400u16, "无效的房间ID格式"@))
            } else if exists|i: int|
                0 <= i < s.world.rooms.len() && (#[trigger] s.world.rooms[i]).1.listed
                    && s.world.rooms[i].1.id == id {
                t == s && a == Err::<(), (u16, Seq<char>)>((409u16, "房间ID已存在"@))
            } else {
                &&& a == Ok::<(), (u16, Seq<char>)>(())
                &&& t.world.next_room == h + 1
                &&& t.world.hub.users == s.world.hub.users
                &&& table::lookup(t.world.rooms, h) matches Some(r) && {
                    &&& r.id == id
                    &&& r.host is None
                    &&& r.creator is None
                    &&& r.users.len() == 0
                    &&& r.monitors.len() == 0
                    &&& r.phase is SelectChart
                    &&& r.listed
                    &&& !r.locked
                    &&& r.chart is None
                    &&& r.competition == competition
                    &&& r.cycle == competition
                    &&& r.live
                }
                &&& k != h ==> table::lookup(t.world.rooms, k) == table::lookup(s.world.rooms, k)
                &&& table::lookup(t.activity, id) == Some(now)
                &&& table::lookup(t.admins, id) is Some
                &&& other != id ==> table::lookup(t.activity, other) == table::lookup(
                    s.activity,
                    other,
                ) && table::lookup(t.admins, other) == table::lookup(s.admins, other)
                &&& t.bans == s.bans
                &&& t.sessions == s.sessions
            }
        }),
{
    laws::law_finding(s.world.rooms, id);
    let h = s.world.next_room;
    let r = admin_room(id, competition);
    table::lemma_put_lookup(s.world.rooms, h, r, h);
    table::lemma_put_lookup(s.world.rooms, h, r, k);
    table::lemma_put_lookup(s.activity, id, now, id);
    table::lemma_put_lookup(s.activity, id, now, other);
    table::lemma_put_lookup(s.admins, id, true, id);
    table::lemma_put_lookup(s.admins, id, true, other);
}

/// Whoever is driven out of a room is not in it any more, and in no other; nobody else is.
pub proof fn law_driving_out(
    w: WorldModel,
    h: u64,
    r: RoomModel,
    uid: i32,
    u: UserModel,
    pick: Option<i32>,
    k: u64,
)
    requires
        world::wf(w),
        table::lookup(w.rooms, h) == Some(r),
        table::lookup(w.hub.users, uid) == Some(u),
        room::can_leave(r, u),
        room::valid_pick(pick, room::successors(r, u)),
    ensures
        ({
            let v = driven_out(w, h, uid, pick);
            &&& table::lookup(v.rooms, h) matches Some(q) && q.id == r.id && q.listed == r.listed
                && (u.monitor ==> q.users == r.users && q.monitors == r.monitors.filter(
                |x: i32| x != uid,
            )) && (!u.monitor ==> q.monitors == r.monitors && q.users == r.users.filter(
                |x: i32| x != uid,
            ))
            &&& k != h ==> table::lookup(v.rooms, k) == table::lookup(w.rooms, k)
            &&& table::lookup(v.hub.users, uid) matches Some(x) && x.room is None
        }),
{
    world::lemma_user_id(w.hub.users, uid);
    let s = world::scene_in(w, r);
    laws::law_dropped(r.users, uid);
    laws::law_dropped(r.monitors, uid);
    let g = room::gone(s, u);
    laws::law_check_moves_nobody(g);
    let b = room::game_broken_off(g);
    laws::law_check_moves_nobody(room::announced(b, MessageModel::NewHost { user: 0 }));
    if let Some(p) = pick {
        laws::law_check_moves_nobody(room::crowned(b, p));
    }
    laws::law_left_is_gone(s, u, pick);
    let q = room::left(s, u, pick).0.room;
    table::lemma_put_lookup(w.rooms, h, q, h);
    table::lemma_put_lookup(w.rooms, h, q, k);
}

/// When the people of a room that is deleted have left it, they are sent away and told why, and
/// nothing is noted of the room any more; a room that nobody is in is gone.
pub proof fn law_deletion(
    s: ServerModel,
    h: u64,
    r: RoomModel,
    id: Seq<char>,
    ids: Seq<i32>,
    other: Seq<char>,
)
    requires
        table::distinct(s.world.rooms),
        table::distinct(s.activity),
        table::distinct(s.admins),
        table::lookup(s.world.rooms, h) == Some(r),
        !r.listed,
    ensures
        ({
            let t = deletion_ended(s, h, id, ids);
            let n = s.world.hub.out.len() as int;
            &&& table::lookup(t.activity, id) is None
            &&& table::lookup(t.admins, id) is None
            &&& other != id ==> table::lookup(t.activity, other) == table::lookup(
                s.activity,
                other,
            ) && table::lookup(t.admins, other) == table::lookup(s.admins, other)
            &&& t.world.hub.users == s.world.hub.users
            &&& t.world.hub.out.len() == n + 3
            &&& t.world.hub.out[n] == (EffectModel::Expel {
                users: ids,
                text: "房间已被管理员删除"@,
            })
            &&& (forall|i: int|
                0 <= i < s.world.hub.users.len() ==> (#[trigger] s.world.hub.users[i]).1.room
                    != Some(h)) ==> table::lookup(t.world.rooms, h) is None
        }),
{
    table::lemma_without_lookup(s.activity, id, other);
    table::lemma_without_lookup(s.admins, id, other);
    table::lemma_without_lookup(s.world.rooms, h, h);
}

/// A room that is switched to a competition takes turns from then on, and its players learn that
/// the system is its host. Nothing else about it changes.
pub proof fn law_switching(s: Scene)
    ensures
        ({
            let t = competition_on(s);
            let n = s.hub.out.len() as int;
            &&& t.room == (RoomModel { cycle: true, ..s.room })
            &&& t.hub.users == s.hub.users
            &&& t.hub.out.len() == n + 2
            &&& laws::sent(
                t.hub.out,
                n,
                s.room.users,
                ServerCommandModel::Message(
                    MessageModel::Chat {
                        user: 0,
                        content: "房间已切换到比赛模式，现在由系统控制"@,
                    },
                ),
            )
            &&& laws::sent(
                t.hub.out,
                n + 1,
                s.room.users,
                ServerCommandModel::Message(MessageModel::NewHost { user: 0 }),
            )
        }),
{
}

/// A chart that the system chooses is the chart of the room; the players learn which it is, and
/// everybody what the room is doing.
pub proof fn law_system_chart(s: Scene, chart: ChartModel)
    ensures
        ({
            let t = system_chart(s, chart);
            let n = s.hub.out.len() as int;
            &&& t.room == (RoomModel { chart: Some(chart), ..s.room })
            &&& t.hub.users == s.hub.users
            &&& t.hub.out.len() == n + 2
            &&& laws::sent(
                t.hub.out,
                n,
                s.room.users,
                ServerCommandModel::Message(
                    MessageModel::SelectChart { user: 0, name: chart.name, id: chart.id },
                ),
            )
            &&& s.room.phase is SelectChart ==> laws::sent(
                t.hub.out,
                n + 1,
                s.room.users + s.room.monitors,
                ServerCommandModel::ChangeState(
                    crate::command::RoomState::SelectChart(Some(chart.id)),
                ),
            )
        }),
{
}

/// When the system asks for a game, nobody is ready yet, and everybody is asked to be; without a
/// chart it is refused.
pub proof fn law_system_start(s: ServerModel, id: Seq<char>, h: u64, r: RoomModel, k: u64)
    requires
        named_room(s.world, id) == Ok::<(u64, RoomModel), (u16, Seq<char>)>((h, r)),
    ensures
        ({
            let (t, a) = game_requested(s, id);
            let n = s.world.hub.out.len() as int;
            if r.chart is None {
                t == s && a == Err::<(u64, bool), (u16, Seq<char>)>(
                    (400u16, "房间未选择谱面，无法开始游戏"@),
                )
            } else {
                &&& a == Ok::<(u64, bool), (u16, Seq<char>)>(
                    (h, table::lookup(s.admins, id) is Some),
                )
                &&& table::lookup(t.world.rooms, h) == Some(
                    RoomModel { phase: Phase::WaitForReady { started: Set::empty() }, ..r },
                )
                &&& k != h ==> table::lookup(t.world.rooms, k) == table::lookup(s.world.rooms, k)
                &&& t.world.hub.users == hub::times_reset(s.world.hub.users, r.users)
                &&& laws::sent(
                    t.world.hub.out,
                    n,
                    r.users,
                    ServerCommandModel::Message(MessageModel::GameStart { user: 0 }),
                )
                &&& laws::sent(
                    t.world.hub.out,
                    n + 1,
                    r.users + r.monitors,
                    ServerCommandModel::ChangeState(crate::command::RoomState::WaitingForReady),
                )
            }
        }),
{
    let q = RoomModel { phase: Phase::WaitForReady { started: Set::empty() }, ..r };
    table::lemma_put_lookup(s.world.rooms, h, q, h);
    table::lemma_put_lookup(s.world.rooms, h, q, k);
}

/// The game of a competition waits for every player: while one is not ready, or there is none,
/// nothing happens; once all are, ten seconds are counted down.
pub proof fn law_countdown_waits(w: WorldModel, h: u64, r: RoomModel)
    requires
        table::lookup(w.rooms, h) == Some(r),
    ensures
        (!(r.phase is WaitForReady) || r.users.len() == 0) ==> ticked(w, h, Countdown::Waiting) == (
            w,
            Countdown::Waiting,
        ),
        (r.phase matches Phase::WaitForReady { started } && exists|i: int|
            0 <= i < r.users.len() && !started.contains(#[trigger] r.users[i])) ==> ticked(
            w,
            h,
            Countdown::Waiting,
        ) == (w, Countdown::Waiting),
        (r.phase matches Phase::WaitForReady { started } && r.users.len() > 0 && forall|i: int|
            0 <= i < r.users.len() ==> started.contains(#[trigger] r.users[i])) ==> {
            let (v, c) = ticked(w, h, Countdown::Waiting);
            &&& c == Countdown::Counting(10)
            &&& table::lookup(v.rooms, h) == Some(r)
            &&& laws::sent(
                v.hub.out,
                w.hub.out.len() as int + 1,
                r.users + r.monitors,
                ServerCommandModel::Message(
                    MessageModel::Chat {
                        user: 0,
                        content: "游戏将在"@ + text::dec(10) + "秒后开始"@,
                    },
                ),
            )
        },
{
    table::lemma_put_lookup(w.rooms, h, r, h);
}

/// Each second of a countdown everybody learns how many are left, and nothing else happens; after
/// the last one the game begins, with no results, and nobody has given up.
pub proof fn law_countdown_runs(w: WorldModel, h: u64, r: RoomModel, i: u8, k: u64)
    requires
        table::lookup(w.rooms, h) == Some(r),
    ensures
        ({
            let (v, c) = ticked(w, h, Countdown::Counting(i));
            let n = w.hub.out.len() as int;
            &&& k != h ==> table::lookup(v.rooms, k) == table::lookup(w.rooms, k)
            &&& i > 1 ==> {
                &&& c == Countdown::Counting((i - 1) as u8)
                &&& table::lookup(v.rooms, h) == Some(r)
                &&& v.hub.users == w.hub.users
                &&& laws::sent(
                    v.hub.out,
                    n + 1,
                    r.users + r.monitors,
                    ServerCommandModel::Message(
                        MessageModel::Chat {
                            user: 0,
                            content: "游戏将在"@ + text::dec(i - 1) + "秒后开始"@,
                        },
                    ),
                )
            }
            &&& i <= 1 ==> {
                &&& c == Countdown::Done
                &&& v.hub.users == hub::times_reset(w.hub.users, r.users)
                &&& table::lookup(v.rooms, h) == Some(
                    RoomModel {
                        phase: Phase::Playing { results: Map::empty(), aborted: Set::empty() },
                        ..r
                    },
                )
                &&& laws::sent(
                    v.hub.out,
                    n + 1,
                    r.users + r.monitors,
                    ServerCommandModel::Message(MessageModel::StartPlaying),
                )
                &&& laws::sent(
                    v.hub.out,
                    n + 2,
                    r.users + r.monitors,
                    ServerCommandModel::ChangeState(crate::command::RoomState::Playing),
                )
            }
        }),
        ticked(w, h, Countdown::Done) == (w, Countdown::Done),
{
    let q = RoomModel { phase: room::fresh_game(), ..r };
    table::lemma_put_lookup(w.rooms, h, r, h);
    table::lemma_put_lookup(w.rooms, h, r, k);
    table::lemma_put_lookup(w.rooms, h, q, h);
    table::lemma_put_lookup(w.rooms, h, q, k);
}

/// What everybody is told reaches everybody in every room that can be found, once, and nobody
/// else; and they are counted so.
pub proof fn law_all_told(
    rooms: Seq<(u64, RoomModel)>,
    content: Seq<char>,
    h: u64,
    r: RoomModel,
)
    ensures
        all_told(Seq::empty(), content).len() == 0,
        audience(Seq::empty()) == (0nat, 0nat),
        r.listed ==> all_told(rooms.push((h, r)), content) == all_told(rooms, content).push(
            EffectModel::Send {
                to: r.users + r.monitors,
                cmd: ServerCommandModel::Message(MessageModel::Chat { user: 0, content }),
            },
        ) && audience(rooms.push((h, r))) == (
            audience(rooms).0 + 1,
            audience(rooms).1 + r.users.len() + r.monitors.len(),
        ),
        !r.listed ==> all_told(rooms.push((h, r)), content) == all_told(rooms, content)
            && audience(rooms.push((h, r))) == audience(rooms),
{
    assert(rooms.push((h, r)).drop_last() =~= rooms);
}

/// What is said to a room reaches everybody in it, and nobody else, and changes nothing; an empty
/// message is refused.
pub proof fn law_room_message(
    w: WorldModel,
    id: Seq<char>,
    content: Seq<char>,
    h: u64,
    r: RoomModel,
)
    requires
        requested(w, id) == Ok::<(u64, RoomModel), (u16, Seq<char>)>((h, r)),
        table::lookup(w.rooms, h) == Some(r),
    ensures
        ({
            let (v, a) = message_sent(w, id, content);
            if content.len() == 0 {
                v == w && a == Err::<nat, (u16, Seq<char>)>((400u16, "消息内容不能为空"@))
            } else {
                &&& a == Ok::<nat, (u16, Seq<char>)>(r.users.len() + r.monitors.len())
                &&& table::lookup(v.rooms, h) == Some(r)
                &&& v.hub.users == w.hub.users
                &&& v.hub.out.len() == w.hub.out.len() + 2
                &&& v.hub.out.last() == (EffectModel::Log {
                    room: r.id,
                    text: LogModel::Plain("[系统广播] "@ + content),
                })
                &&& laws::sent(
                    v.hub.out,
                    w.hub.out.len() as int,
                    r.users + r.monitors,
                    ServerCommandModel::Message(MessageModel::Chat { user: 0, content }),
                )
            }
        }),
{
    table::lemma_put_lookup(w.rooms, h, r, h);
}

/// Only a room of a competition is made live, and only if it is not: then it is, and the watcher,
/// if known, is among those who watch it.
pub proof fn law_making_live(w: WorldModel, id: Seq<char>, h: u64, r: RoomModel, k: u64)
    requires
        requested(w, id) == Ok::<(u64, RoomModel), (u16, Seq<char>)>((h, r)),
        world::ids_ok(w.hub.users),
    ensures
        ({
            let (v, a) = live_requested(w, id);
            if !r.competition {
                v == w && a == Err::<bool, (u16, Seq<char>)>(
                    (403u16, "只有比赛房间可以启用Live模式"@),
                )
            } else if r.live {
                v == w && a == Ok::<bool, (u16, Seq<char>)>(true)
            } else {
                &&& a == Ok::<bool, (u16, Seq<char>)>(false)
                &&& k != h ==> table::lookup(v.rooms, k) == table::lookup(w.rooms, k)
                &&& v.hub.users == w.hub.users
                &&& table::lookup(v.rooms, h) == Some(
                    if table::lookup(w.hub.users, 2i32) is Some {
                        RoomModel { live: true, monitors: r.monitors.push(2i32), ..r }
                    } else {
                        RoomModel { live: true, ..r }
                    },
                )
            }
        }),
{
    world::lemma_user_id(w.hub.users, WATCHER_ID);
    let q = made_live(world::scene_in(w, r)).room;
    table::lemma_put_lookup(w.rooms, h, q, h);
    table::lemma_put_lookup(w.rooms, h, q, k);
}

/// When a room is made live with its watcher, whoever made it goes and comes again in the eyes of
/// the others, and the watcher comes in between.
pub proof fn law_watcher_shown(s: Scene, m: UserModel, c: i32, u: UserModel)
    requires
        table::lookup(s.hub.users, 2i32) == Some(m),
        s.room.creator == Some(c),
        table::lookup(s.hub.users, c) == Some(u),
    ensures
        ({
            let t = made_live(s);
            let n = s.hub.out.len() as int;
            let now = s.room.users + s.room.monitors.push(m.id);
            &&& t.hub.out.len() == n + 3
            &&& t.hub.out.take(n) == s.hub.out
            &&& laws::sent(
                t.hub.out,
                n,
                s.room.users + s.room.monitors,
                ServerCommandModel::Message(MessageModel::LeaveRoom { user: c, name: u.name }),
            )
            &&& laws::sent(
                t.hub.out,
                n + 1,
                now,
                ServerCommandModel::OnJoinRoom(
                    crate::command::UserInfoModel { id: m.id, name: m.name, monitor: m.monitor },
                ),
            )
            &&& laws::sent(
                t.hub.out,
                n + 2,
                now,
                ServerCommandModel::Message(MessageModel::JoinRoom { user: u.id, name: u.name }),
            )
        }),
{
    assert(made_live(s).hub.out.take(s.hub.out.len() as int) =~= s.hub.out);
}

/// Whoever asks for a room to be deleted learns how many had to leave it, and only if they all
/// could.
pub proof fn law_deletion_counted(
    s: ServerModel,
    h: u64,
    id: Seq<char>,
    ids: Seq<i32>,
    picks: Seq<Option<i32>>,
)
    requires
        ids.len() <= usize::MAX,
    ensures
        ({
            let (t, a) = room_deleted(s, h, id, ids, picks);
            &&& a matches Ok(n)
            &&& n matches Some(k) ==> k == ids.len()
            &&& n is Some <==> emptied(world::unlisted(s.world, h), h, ids, picks).1
            &&& t.sessions == s.sessions
            &&& t.bans == s.bans
            &&& t.maintenance == s.maintenance
        }),
{
}

/// The words of the server: what it says for inspectors if they say nothing themselves, what it
/// passes on from elsewhere, and what it calls a chart that it does not know.
pub proof fn law_words(m: Seq<char>, group: Seq<char>, id: i32)
    ensures
        inspection_text(Some(m)) == m,
        inspection_text(None) == "巡查广播：专家巡查员正在实时巡查本场竞赛，请文明游戏！"@,
        group_text(group, m) == "来自QQ群["@ + group + "]的消息："@ + m,
        nameless_chart(id).id == id,
        nameless_chart(id).name == "Chart_"@ + text::dec(id as int),
{
}

} // verus!
