//! The rooms, the users in them, and the recorders: everything that commands change.
use crate::command::RoomId;
use crate::hub;
use crate::hub::{EffectModel, Hub, HubModel, UserModel};
use crate::replay::{RecorderModel, ReplayManager};
use crate::room;
use crate::room::{Room, RoomModel, Scene};
use crate::table;
use crate::table::{Table, TableKey};
use vstd::prelude::*;
use vstd::string::*;

verus! {

broadcast use table::group_views;

/// The rooms, the users in them, and the recorders.
#[derive(Debug)]
pub struct World {
    pub hub: Hub,
    pub rooms: Table<u64, Room>,
    /// The number of the next room.
    pub next_room: u64,
    pub replay_manager: ReplayManager,
}

/// What a [`World`] means.
#[verifier::ext_equal]
pub struct WorldModel {
    pub hub: HubModel,
    pub rooms: Seq<(u64, RoomModel)>,
    pub next_room: u64,
    pub replays: Seq<(Seq<char>, RecorderModel)>,
}

impl View for World {
    type V = WorldModel;

    open spec fn view(&self) -> WorldModel {
        WorldModel {
            hub: self.hub@,
            rooms: table::views(self.rooms@),
            next_room: self.next_room,
            replays: self.replay_manager@,
        }
    }
}

/// A user.
pub open spec fn user_of(w: WorldModel, uid: i32) -> Option<UserModel> {
    table::lookup(w.hub.users, uid)
}

/// The number of the room that a user is in, and the room.
pub open spec fn room_of(w: WorldModel, uid: i32) -> Option<(u64, RoomModel)> {
    match user_of(w, uid) {
        Some(u) => match u.room {
            Some(h) => match table::lookup(w.rooms, h) {
                Some(r) => Some((h, r)),
                None => None,
            },
            None => None,
        },
        None => None,
    }
}

/// A room and its surroundings.
pub open spec fn scene_in(w: WorldModel, r: RoomModel) -> Scene {
    Scene { room: r, hub: w.hub }
}

/// The world with the room of number `h` and its surroundings changed.
pub open spec fn with_scene(w: WorldModel, h: u64, s: Scene) -> WorldModel {
    WorldModel { hub: s.hub, rooms: table::put(w.rooms, h, s.room), ..w }
}

/// One more effect.
pub open spec fn emitted(w: WorldModel, e: EffectModel) -> WorldModel {
    WorldModel { hub: hub::emitted(w.hub, e), ..w }
}

/// The room that can be found by an id.
pub open spec fn find_listed(rooms: Seq<(u64, RoomModel)>, id: Seq<char>) -> Option<
    (u64, RoomModel),
>
    decreases rooms.len(),
{
    if rooms.len() == 0 {
        None
    } else if rooms[0].1.listed && rooms[0].1.id == id {
        Some((rooms[0].0, rooms[0].1))
    } else {
        find_listed(rooms.skip(1), id)
    }
}

/// A room that is found is listed under its id, and stands under its number.
pub proof fn lemma_listed(rooms: Seq<(u64, RoomModel)>, id: Seq<char>)
    requires
        table::distinct(rooms),
    ensures
        find_listed(rooms, id) matches Some((h, r)) ==> r.listed && r.id == id && table::lookup(
            rooms,
            h,
        ) == Some(r),
    decreases rooms.len(),
{
    if rooms.len() > 0 {
        if rooms[0].1.listed && rooms[0].1.id == id {
            table::lemma_find_is(rooms, rooms[0].0, 0);
        } else {
            let rest = rooms.skip(1);
            assert forall|i: int, j: int| 0 <= i < j < rest.len() implies (#[trigger] rest[i]).0
                != (#[trigger] rest[j]).0 by {
                assert(rest[i] == rooms[i + 1] && rest[j] == rooms[j + 1]);
            }
            lemma_listed(rest, id);
            if let Some((h, r)) = find_listed(rest, id) {
                table::lemma_find(rest, h);
                let i = table::find(rest, h);
                assert(rest[i] == rooms[i + 1]);
                assert(rooms[0].0 != rooms[i + 1].0);
                assert forall|j: int| 0 <= j < i + 1 implies (#[trigger] rooms[j]).0 != h by {
                    if j > 0 {
                        assert(rooms[j] == rest[j - 1]);
                    }
                }
                table::lemma_find_is(rooms, h, i + 1);
            }
        }
    }
}

/// Whether a user is in the room of number `h`.
pub open spec fn occupied(users: Seq<(i32, UserModel)>, h: u64) -> bool {
    exists|i: int| 0 <= i < users.len() && (#[trigger] users[i]).1.room == Some(h)
}

/// The world without the room of number `h`, if it cannot be found any more and nobody is
/// in it.
pub open spec fn swept(w: WorldModel, h: u64) -> WorldModel {
    match table::lookup(w.rooms, h) {
        Some(r) => if !r.listed && !occupied(w.hub.users, h) {
            WorldModel { rooms: table::without(w.rooms, h), ..w }
        } else {
            w
        },
        None => w,
    }
}

/// The room of number `h` can no longer be found.
pub open spec fn unlisted(w: WorldModel, h: u64) -> WorldModel {
    match table::lookup(w.rooms, h) {
        Some(r) => WorldModel {
            rooms: table::put(w.rooms, h, RoomModel { listed: false, ..r }),
            ..w
        },
        None => w,
    }
}

/// A user leaves their room; `pick` becomes its host if they were.
pub open spec fn left_room(w: WorldModel, uid: i32, pick: Option<i32>) -> WorldModel {
    match (user_of(w, uid), room_of(w, uid)) {
        (Some(u), Some((h, r))) => {
            let (s, drop) = room::left(scene_in(w, r), u, pick);
            let t = with_scene(w, h, s);
            swept(
                if drop {
                    unlisted(t, h)
                } else {
                    t
                },
                h,
            )
        },
        _ => w,
    }
}

/// The players who may become the host when a user leaves their room.
pub open spec fn successors(w: WorldModel, uid: i32) -> Seq<i32> {
    match (user_of(w, uid), room_of(w, uid)) {
        (Some(u), Some((_, r))) => room::successors(r, u),
        _ => Seq::empty(),
    }
}

/// Whether a user can leave their room.
pub open spec fn can_leave(w: WorldModel, uid: i32) -> bool {
    match (user_of(w, uid), room_of(w, uid)) {
        (Some(u), Some((_, r))) => room::can_leave(r, u),
        _ => true,
    }
}

/// Every user stands under their own id.
pub open spec fn ids_ok(users: Seq<(i32, UserModel)>) -> bool {
    forall|i: int| 0 <= i < users.len() ==> (#[trigger] users[i]).1.id == users[i].0
}

/// Whether everybody whom a room refers to is known.
pub open spec fn known(r: RoomModel, users: Seq<(i32, UserModel)>) -> bool {
    &&& forall|i: int| 0 <= i < r.users.len() ==> table::holds(users, #[trigger] r.users[i])
    &&& forall|i: int|
        0 <= i < r.monitors.len() ==> table::holds(users, #[trigger] r.monitors[i])
    &&& r.host matches Some(h) ==> table::holds(users, h)
}

/// What holds of the world at all times: every user and every room stands once, under their
/// own number, and rooms refer only to users who are known.
pub open spec fn wf(w: WorldModel) -> bool {
    &&& table::distinct(w.hub.users)
    &&& ids_ok(w.hub.users)
    &&& table::distinct(w.rooms)
    &&& forall|i: int| 0 <= i < w.rooms.len() ==> (#[trigger] w.rooms[i]).0 < w.next_room
    &&& forall|i: int| 0 <= i < w.rooms.len() ==> known((#[trigger] w.rooms[i]).1, w.hub.users)
}

/// A user who is found has the id that was looked for.
pub proof fn lemma_user_id(users: Seq<(i32, UserModel)>, uid: i32)
    requires
        ids_ok(users),
    ensures
        table::lookup(users, uid) matches Some(u) ==> u.id == uid,
{
    table::lemma_find(users, uid);
}

impl World {
    /// No rooms and nobody in them.
    pub fn new() -> (res: World)
        ensures
            res@ == (WorldModel {
                hub: HubModel { users: Seq::empty(), charts: Seq::empty(), out: Seq::empty() },
                rooms: Seq::empty(),
                next_room: 0,
                replays: Seq::empty(),
            }),
    {
        World {
            hub: Hub::new(),
            rooms: Table::new(),
            next_room: 0,
            replay_manager: ReplayManager::new(),
        }
    }

    /// The number of the room that a user is in.
    pub fn room_handle(&self, uid: i32) -> (res: Option<u64>)
        ensures
            match room_of(self@, uid) {
                Some((h, _)) => res == Some(h),
                None => res is None,
            },
    {
        match self.hub.users.get(&uid) {
            Some(u) => match u.room {
                Some(h) => {
                    if self.rooms.contains_key(&h) {
                        Some(h)
                    } else {
                        None
                    }
                },
                None => None,
            },
            None => None,
        }
    }

    /// The number of the room that can be found by an id.
    pub fn listed_room(&self, id: &RoomId) -> (res: Option<u64>)
        ensures
            match find_listed(self@.rooms, id@) {
                Some((h, _)) => res == Some(h),
                None => res is None,
            },
    {
        let ghost all = self@.rooms;
        let mut i: usize = 0;
        assert(all.skip(0) =~= all);
        while i < self.rooms.len()
            invariant
                i <= self.rooms@.len(),
                all == self@.rooms,
                find_listed(all, id@) == find_listed(all.skip(i as int), id@),
            decreases self.rooms@.len() - i,
        {
            let ghost here = all.skip(i as int);
            let room = self.rooms.value(i);
            assert(here[0] == (self.rooms@[i as int].0, room@));
            if room.listed && room.id.same(id) {
                return Some(*self.rooms.key(i));
            }
            assert(here.skip(1) =~= all.skip(i + 1));
            i += 1;
        }
        None
    }

    /// Whether a user is in the room of number `h`.
    fn is_occupied(&self, h: u64) -> (res: bool)
        ensures
            res == occupied(self@.hub.users, h),
    {
        let ghost users = self@.hub.users;
        let mut i: usize = 0;
        while i < self.hub.users.len()
            invariant
                i <= self.hub.users@.len(),
                users == self@.hub.users,
                forall|j: int| 0 <= j < i ==> (#[trigger] users[j]).1.room != Some(h),
            decreases self.hub.users@.len() - i,
        {
            let inside: bool = match self.hub.users.value(i).room {
                Some(r) => r == h,
                None => false,
            };
            if inside {
                assert(users[i as int].1.room == Some(h));
                return true;
            }
            i += 1;
        }
        false
    }

    /// Drops the room of number `h`, if it cannot be found any more and nobody is in it.
    pub fn sweep(&mut self, h: u64)
        ensures
            final(self)@ == swept(old(self)@, h),
    {
        let gone: bool = match self.rooms.get(&h) {
            Some(room) => !room.listed,
            None => false,
        };
        if gone && !self.is_occupied(h) {
            let _ = self.rooms.remove(&h);
        }
    }

    /// Makes the room of number `h` impossible to find.
    pub fn unlist(&mut self, h: u64)
        ensures
            final(self)@ == unlisted(old(self)@, h),
    {
        if let Some(room) = self.rooms.get_mut(&h) {
            room.listed = false;
        }
    }

    /// The players who may become the host when a user leaves their room.
    pub fn successors(&self, uid: i32) -> (res: Vec<i32>)
        ensures
            res@ == successors(self@, uid),
    {
        match (self.hub.users.get(&uid), self.room_handle(uid)) {
            (Some(user), Some(h)) => match self.rooms.get(&h) {
                Some(room) => room.successors(user),
                None => Vec::new(),
            },
            _ => Vec::new(),
        }
    }

    /// Whether a user can leave their room.
    pub fn leave_allowed(&self, uid: i32) -> (res: bool)
        ensures
            res == can_leave(self@, uid),
    {
        match (self.hub.users.get(&uid), self.room_handle(uid)) {
            (Some(user), Some(h)) => match self.rooms.get(&h) {
                Some(room) => room.leave_allowed(user),
                None => true,
            },
            _ => true,
        }
    }

    /// A user leaves their room; `pick` becomes its host if they were.
    pub fn leave_room(&mut self, uid: i32, pick: Option<i32>)
        requires
            ids_ok(old(self)@.hub.users),
            can_leave(old(self)@, uid),
            room::valid_pick(pick, successors(old(self)@, uid)),
        ensures
            final(self)@ == left_room(old(self)@, uid, pick),
    {
        proof {
            lemma_user_id(self@.hub.users, uid);
        }
        let h: u64 = match self.room_handle(uid) {
            Some(h) => h,
            None => {
                return;
            },
        };
        let drop: bool = match self.rooms.get_mut(&h) {
            Some(room) => room.leave(&mut self.hub, uid, pick),
            None => false,
        };
        if drop {
            self.unlist(h);
        }
        self.sweep(h);
    }

    /// One of the players who may become the host when a user leaves their room, by chance.
    pub fn choose_successor(&self, uid: i32) -> (res: Option<i32>)
        ensures
            room::valid_pick(res, successors(self@, uid)),
    {
        let from: Vec<i32> = self.successors(uid);
        room::choose_id(from.as_slice())
    }
}

} // verus!
