//! What is cleared away from time to time, and what is restored at the start.
use crate::keys;
use crate::room;
use crate::room::{Room, RoomModel};
use crate::server;
use crate::server::{ServerModel, ServerState, SessionModel, ROOM_IDLE_SECONDS};
use crate::table;
use crate::text;
use crate::upkeep;
use crate::world;
use crate::world::WorldModel;
use vstd::prelude::*;
use vstd::string::*;

verus! {

broadcast use table::group_views;

/// The sessions whose connections are still there.
pub open spec fn still_connected(
    infos: Seq<(u128, SessionModel)>,
    sessions: Seq<(u128, i32)>,
) -> Seq<(u128, SessionModel)>
    decreases infos.len(),
{
    if infos.len() == 0 {
        Seq::empty()
    } else {
        let front = still_connected(infos.drop_last(), sessions);
        if table::holds(sessions, infos.last().0) {
            front.push(infos.last())
        } else {
            front
        }
    }
}

/// The addresses that have not been on the black list for too long.
pub open spec fn still_black(s: Seq<(Seq<char>, u128)>, now: u128) -> Seq<(Seq<char>, u128)>
    decreases s.len(),
{
    if s.len() == 0 {
        Seq::empty()
    } else {
        let front = still_black(s.drop_last(), now);
        if server::seconds_between(s.last().1, now) < server::BLACKLIST_SECONDS {
            front.push(s.last())
        } else {
            front
        }
    }
}

/// Whether a room has had nobody in it for too long; rooms of administrators may stay.
pub open spec fn abandoned(s: ServerModel, r: RoomModel, now: u128) -> bool {
    &&& r.listed
    &&& r.users.len() == 0
    &&& r.monitors.len() == 0
    &&& !table::holds(s.admins, r.id)
    &&& table::lookup(s.activity, r.id) matches Some(t) ==> server::seconds_between(t, now)
        >= ROOM_IDLE_SECONDS
}

/// The numbers of the rooms that have had nobody in them for too long.
pub open spec fn abandoned_rooms(
    s: ServerModel,
    rooms: Seq<(u64, RoomModel)>,
    now: u128,
) -> Seq<u64>
    decreases rooms.len(),
{
    if rooms.len() == 0 {
        Seq::empty()
    } else {
        let front = abandoned_rooms(s, rooms.drop_last(), now);
        if abandoned(s, rooms.last().1, now) {
            front.push(rooms.last().0)
        } else {
            front
        }
    }
}

/// The server without a room, and without what was noted of it.
pub open spec fn room_dropped(s: ServerModel, h: u64) -> ServerModel {
    match table::lookup(s.world.rooms, h) {
        Some(r) => ServerModel {
            world: world::swept(world::unlisted(s.world, h), h),
            activity: table::without(s.activity, r.id),
            admins: table::without(s.admins, r.id),
            ..s
        },
        None => s,
    }
}

/// The server without some rooms.
pub open spec fn rooms_dropped(s: ServerModel, hs: Seq<u64>) -> ServerModel
    decreases hs.len(),
{
    if hs.len() == 0 {
        s
    } else {
        room_dropped(rooms_dropped(s, hs.drop_last()), hs.last())
    }
}

/// Numbers, each once.
pub open spec fn unique(ids: Seq<i32>) -> Seq<i32>
    decreases ids.len(),
{
    if ids.len() == 0 {
        Seq::empty()
    } else {
        text::with_id(unique(ids.drop_last()), ids.last())
    }
}

/// Making a room impossible to find keeps the world.
pub proof fn lemma_unlisted(w: WorldModel, h: u64)
    requires
        world::wf(w),
    ensures
        world::wf(world::unlisted(w, h)),
{
    if let Some(r) = table::lookup(w.rooms, h) {
        let q = RoomModel { listed: false, ..r };
        upkeep::lemma_scene_good(w, h);
        upkeep::lemma_same_people(world::scene_in(w, r), world::scene_in(w, q));
        upkeep::lemma_with_scene(w, h, r, world::scene_in(w, q));
        assert(world::unlisted(w, h) =~= world::with_scene(w, h, world::scene_in(w, q)));
    }
}

/// Dropping a room keeps the world.
pub proof fn law_room_dropped(s: ServerModel, h: u64)
    requires
        world::wf(s.world),
    ensures
        world::wf(room_dropped(s, h).world),
{
    lemma_unlisted(s.world, h);
    upkeep::lemma_room_removed(world::unlisted(s.world, h), h);
}

impl ServerState {
    /// Forgets the sessions whose connections are gone.
    pub fn drop_stale_sessions(&mut self)
        ensures
            final(self)@ == (ServerModel {
                infos: still_connected(old(self)@.infos, old(self)@.sessions),
                ..old(self)@
            }),
            final(self).config == old(self).config,
            keys::keyed(old(self)@) ==> keys::keyed(final(self)@),
    {
        proof {
            if keys::keyed(self@) {
                keys::law_connected_keyed(self@.infos, self@.sessions);
            }
        }
        let ghost infos = self@.infos;
        let ghost sessions = self@.sessions;
        let mut i: usize = 0;
        assert(infos.take(0) =~= Seq::empty());
        assert(infos.skip(0) =~= infos);
        let ghost mut done: int = 0;
        while i < self.session_info.len()
            invariant
                i <= self.session_info@.len(),
                self.config == old(self).config,
                0 <= done <= infos.len(),
                infos == old(self)@.infos,
                sessions == self@.sessions,
                self@ == (ServerModel { infos: self@.infos, ..old(self)@ }),
                self@.infos == still_connected(infos.take(done), sessions) + infos.skip(done),
                i == still_connected(infos.take(done), sessions).len(),
            decreases self.session_info@.len() - i,
        {
            let id: u128 = *self.session_info.key(i);
            let ghost kept = still_connected(infos.take(done), sessions);
            proof {
                assert(self@.infos[i as int] == infos[done]);
                assert(infos.take(done + 1).drop_last() =~= infos.take(done));
            }
            if self.sessions.contains_key(&id) {
                i += 1;
                assert(self@.infos =~= kept.push(infos[done]) + infos.skip(done + 1));
            } else {
                let ghost before = self@.infos;
                self.session_info.remove_at(i);
                assert(self@.infos =~= before.remove(i as int));
                assert(self@.infos =~= kept + infos.skip(done + 1));
            }
            proof {
                done = done + 1;
            }
        }
        assert(infos.take(done) =~= infos);
        assert(self@.infos =~= still_connected(infos, sessions));
    }

    /// Forgets the addresses that have been on the black list for too long.
    pub fn drop_old_blacklist(&mut self, now: u128)
        ensures
            final(self)@ == (ServerModel {
                blacklist: still_black(old(self)@.blacklist, now),
                ..old(self)@
            }),
            final(self).config == old(self).config,
            keys::keyed(old(self)@) ==> keys::keyed(final(self)@),
    {
        proof {
            if keys::keyed(self@) {
                keys::law_black_keyed(self@.blacklist, now);
            }
        }
        let ghost all = self@.blacklist;
        let mut i: usize = 0;
        assert(all.take(0) =~= Seq::empty());
        assert(all.skip(0) =~= all);
        let ghost mut done: int = 0;
        while i < self.ip_blacklist.len()
            invariant
                i <= self.ip_blacklist@.len(),
                self.config == old(self).config,
                0 <= done <= all.len(),
                all == old(self)@.blacklist,
                self@ == (ServerModel { blacklist: self@.blacklist, ..old(self)@ }),
                self@.blacklist == still_black(all.take(done), now) + all.skip(done),
                i == still_black(all.take(done), now).len(),
            decreases self.ip_blacklist@.len() - i,
        {
            let since: u128 = *self.ip_blacklist.value(i);
            let ghost kept = still_black(all.take(done), now);
            proof {
                assert(self@.blacklist[i as int] == all[done]);
                assert(all.take(done + 1).drop_last() =~= all.take(done));
            }
            if server::is_within(since, now, server::BLACKLIST_SECONDS) {
                i += 1;
                assert(self@.blacklist =~= kept.push(all[done]) + all.skip(done + 1));
            } else {
                let ghost before = self@.blacklist;
                self.ip_blacklist.remove_at(i);
                assert(self@.blacklist =~= before.remove(i as int));
                assert(self@.blacklist =~= kept + all.skip(done + 1));
            }
            proof {
                done = done + 1;
            }
        }
        assert(all.take(done) =~= all);
        assert(self@.blacklist =~= still_black(all, now));
    }

    /// Whether a room has had nobody in it for too long.
    fn is_abandoned(&self, room: &Room, now: u128) -> (res: bool)
        ensures
            res == abandoned(self@, room@, now),
    {
        if !room.listed || room.users.len() > 0 || room.monitors.len() > 0 {
            return false;
        }
        let key: String = room.id.to_string();
        if self.admin_created_rooms.contains_key(&key) {
            return false;
        }
        match self.room_last_activity.get(&key) {
            Some(t) => !server::is_within(*t, now, ROOM_IDLE_SECONDS),
            None => true,
        }
    }

    /// The numbers of the rooms that have had nobody in them for too long.
    fn find_abandoned(&self, now: u128) -> (res: Vec<u64>)
        ensures
            res@ == abandoned_rooms(self@, self@.world.rooms, now),
    {
        let ghost rooms = self@.world.rooms;
        let mut res: Vec<u64> = Vec::new();
        let mut i: usize = 0;
        assert(rooms.take(0) =~= Seq::empty());
        while i < self.world.rooms.len()
            invariant
                i <= self.world.rooms@.len(),
                rooms == self@.world.rooms,
                res@ == abandoned_rooms(self@, rooms.take(i as int), now),
            decreases self.world.rooms@.len() - i,
        {
            let room = self.world.rooms.value(i);
            proof {
                assert(rooms.take(i + 1).drop_last() =~= rooms.take(i as int));
                assert(rooms[i as int].1 == room@);
            }
            if self.is_abandoned(room, now) {
                res.push(*self.world.rooms.key(i));
            }
            i += 1;
        }
        assert(rooms.take(i as int) =~= rooms);
        res
    }

    /// Drops a room, and what was noted of it.
    pub fn drop_room(&mut self, h: u64)
        requires
            world::wf(old(self)@.world),
        ensures
            final(self)@ == room_dropped(old(self)@, h),
            world::wf(final(self)@.world),
            final(self).config == old(self).config,
            keys::keyed(old(self)@) ==> keys::keyed(final(self)@),
    {
        proof {
            if keys::keyed(self@) {
                keys::law_room_dropped_keyed(self@, h);
            }
        }
        proof {
            law_room_dropped(self@, h);
        }
        let key: String = match self.world.rooms.get(&h) {
            Some(room) => room.id.to_string(),
            None => {
                return;
            },
        };
        self.world.unlist(h);
        self.world.sweep(h);
        let _ = self.room_last_activity.remove(&key);
        let _ = self.admin_created_rooms.remove(&key);
    }

    /// Drops the rooms that have had nobody in them for too long.
    pub fn drop_abandoned(&mut self, now: u128)
        requires
            world::wf(old(self)@.world),
        ensures
            final(self)@ == rooms_dropped(
                old(self)@,
                abandoned_rooms(old(self)@, old(self)@.world.rooms, now),
            ),
            world::wf(final(self)@.world),
            final(self).config == old(self).config,
            keys::keyed(old(self)@) ==> keys::keyed(final(self)@),
    {
        let ghost start = self@;
        let gone: Vec<u64> = self.find_abandoned(now);
        let mut i: usize = 0;
        assert(gone@.take(0) =~= Seq::empty());
        while i < gone.len()
            invariant
                i <= gone.len(),
                self@ == rooms_dropped(start, gone@.take(i as int)),
                world::wf(self@.world),
                self.config == old(self).config,
                keys::keyed(old(self)@) ==> keys::keyed(self@),
            decreases gone.len() - i,
        {
            assert(gone@.take(i + 1).drop_last() =~= gone@.take(i as int));
            self.drop_room(gone[i]);
            i += 1;
        }
        assert(gone@.take(i as int) =~= gone@);
    }

    /// Notes the public address of the server, if there is one in an answer.
    pub fn note_public_ip(&mut self, answer: &str) -> (res: bool)
        ensures
            res == (text::trimmed(answer@).len() > 0),
            final(self)@ == (if res {
                ServerModel { public_ip: text::trimmed(answer@), ..old(self)@ }
            } else {
                old(self)@
            }),
            final(self).config == old(self).config,
            keys::keyed(old(self)@) ==> keys::keyed(final(self)@),
    {
        let ip: &str = text::trim(answer);
        if ip.unicode_len() > 0 {
            self.public_ip = ip.to_owned();
            true
        } else {
            false
        }
    }

    /// Restores whether the server is being maintained, and for whom it is open then.
    pub fn restore_maintenance(&mut self, enabled: bool, ids: &Vec<i32>)
        ensures
            final(self)@ == (ServerModel {
                maintenance: enabled,
                whitelist: unique(ids@),
                ..old(self)@
            }),
            final(self).config == old(self).config,
            keys::keyed(old(self)@) ==> keys::keyed(final(self)@),
    {
        let mut list: Vec<i32> = Vec::new();
        let mut i: usize = 0;
        assert(ids@.take(0) =~= Seq::empty());
        while i < ids.len()
            invariant
                i <= ids.len(),
                list@ == unique(ids@.take(i as int)),
            decreases ids.len() - i,
        {
            assert(ids@.take(i + 1).drop_last() =~= ids@.take(i as int));
            if !text::contains_id(&list, ids[i]) {
                list.push(ids[i]);
            }
            i += 1;
        }
        assert(ids@.take(i as int) =~= ids@);
        self.maintenance_mode = enabled;
        self.maintenance_whitelist = list;
    }
}

/// A room with someone in it is never abandoned, nor is one of an administrator.
pub proof fn law_not_abandoned(s: ServerModel, r: RoomModel, now: u128)
    requires
        r.users.len() > 0 || r.monitors.len() > 0 || table::holds(s.admins, r.id),
    ensures
        !abandoned(s, r, now),
{
}

/// A room that was noted to be active is not abandoned until ten minutes later.
pub proof fn law_active_room_stays(s: ServerModel, r: RoomModel, since: u128, now: u128)
    requires
        now - since < 600 * 1_000_000_000,
    ensures
        !abandoned(
            ServerModel { activity: table::put(s.activity, r.id, since), ..s },
            r,
            now,
        ),
{
    table::lemma_put_lookup(s.activity, r.id, since, r.id);
}

/// An address is on the black list for ten seconds, no longer.
pub proof fn law_blacklist_time(s: Seq<(Seq<char>, u128)>, ip: Seq<char>, since: u128, now: u128)
    ensures
        server::blacklisted(table::put(s, ip, since), ip, now) <==> now - since < 10
            * 1_000_000_000,
{
    table::lemma_put_lookup(s, ip, since, ip);
}

/// The sessions that are kept are those whose connections are there, all of them and no others.
pub proof fn law_stale_sessions(
    infos: Seq<(u128, SessionModel)>,
    sessions: Seq<(u128, i32)>,
    e: (u128, SessionModel),
)
    ensures
        still_connected(infos, sessions).contains(e) <==> infos.contains(e) && table::lookup(
            sessions,
            e.0,
        ) is Some,
    decreases infos.len(),
{
    if infos.len() > 0 {
        let rest = infos.drop_last();
        let front = still_connected(rest, sessions);
        let all = still_connected(infos, sessions);
        law_stale_sessions(rest, sessions, e);
        assert(infos =~= rest.push(infos.last()));
        lemma_pushed(rest, infos.last(), e);
        lemma_pushed(front, infos.last(), e);
    }
}

/// What is in a list with one more entry.
proof fn lemma_pushed<T>(s: Seq<T>, a: T, e: T)
    ensures
        s.push(a).contains(e) <==> s.contains(e) || a == e,
{
    let t = s.push(a);
    if t.contains(e) {
        let i = choose|i: int| 0 <= i < t.len() && t[i] == e;
        if i < s.len() {
            assert(s[i] == e);
        }
    }
    if s.contains(e) {
        let i = choose|i: int| 0 <= i < s.len() && s[i] == e;
        assert(t[i] == e);
    }
    assert(t[s.len() as int] == a);
}

/// The addresses that stay on the black list are those that have been on it for less than ten
/// seconds, all of them and no others.
pub proof fn law_old_blacklist(s: Seq<(Seq<char>, u128)>, now: u128, e: (Seq<char>, u128))
    ensures
        still_black(s, now).contains(e) <==> s.contains(e) && now - e.1 < 10_000_000_000,
    decreases s.len(),
{
    if s.len() > 0 {
        let rest = s.drop_last();
        law_old_blacklist(rest, now, e);
        assert(s =~= rest.push(s.last()));
        lemma_pushed(rest, s.last(), e);
        lemma_pushed(still_black(rest, now), s.last(), e);
    }
}

/// A room is abandoned if it can be found, nobody is in it, no administrator made it, and nothing
/// was noted of it for ten minutes.
pub proof fn law_abandoned(s: ServerModel, r: RoomModel, now: u128)
    ensures
        abandoned(s, r, now) <==> {
            &&& r.listed
            &&& r.users.len() == 0
            &&& r.monitors.len() == 0
            &&& table::lookup(s.admins, r.id) is None
            &&& table::lookup(s.activity, r.id) matches Some(t) ==> now - t >= 600_000_000_000
        },
{
}

/// The rooms that are dropped are those that are abandoned, all of them and no others.
pub proof fn law_abandoned_rooms(
    s: ServerModel,
    rooms: Seq<(u64, RoomModel)>,
    now: u128,
    h: u64,
)
    ensures
        abandoned_rooms(s, rooms, now).contains(h) <==> exists|i: int|
            0 <= i < rooms.len() && (#[trigger] rooms[i]).0 == h && abandoned(s, rooms[i].1, now),
    decreases rooms.len(),
{
    if rooms.len() > 0 {
        let rest = rooms.drop_last();
        law_abandoned_rooms(s, rest, now, h);
        lemma_pushed(abandoned_rooms(s, rest, now), rooms.last().0, h);
        if exists|i: int|
            0 <= i < rest.len() && (#[trigger] rest[i]).0 == h && abandoned(s, rest[i].1, now) {
            let i = choose|i: int|
                0 <= i < rest.len() && (#[trigger] rest[i]).0 == h && abandoned(s, rest[i].1, now);
            assert(rooms[i] == rest[i]);
        }
        if exists|i: int|
            0 <= i < rooms.len() && (#[trigger] rooms[i]).0 == h && abandoned(s, rooms[i].1, now) {
            let i = choose|i: int|
                0 <= i < rooms.len() && (#[trigger] rooms[i]).0 == h && abandoned(
                    s,
                    rooms[i].1,
                    now,
                );
            if i < rest.len() {
                assert(rest[i] == rooms[i]);
            }
        }
        assert(rooms[rooms.len() - 1] == rooms.last());
    }
}

/// A room that is dropped can no longer be found, and nothing is noted of it; every other room is
/// as it was.
pub proof fn law_dropping(s: ServerModel, h: u64, r: RoomModel, k: u64, id: Seq<char>)
    requires
        table::distinct(s.world.rooms),
        table::distinct(s.activity),
        table::distinct(s.admins),
        table::lookup(s.world.rooms, h) == Some(r),
    ensures
        ({
            let t = room_dropped(s, h);
            &&& table::lookup(t.world.rooms, h) matches Some(q) ==> !q.listed && q.users == r.users
            &&& k != h ==> table::lookup(t.world.rooms, k) == table::lookup(s.world.rooms, k)
            &&& t.world.hub == s.world.hub
            &&& table::lookup(t.activity, r.id) is None
            &&& table::lookup(t.admins, r.id) is None
            &&& id != r.id ==> table::lookup(t.activity, id) == table::lookup(s.activity, id)
                && table::lookup(t.admins, id) == table::lookup(s.admins, id)
            &&& t.bans == s.bans
            &&& t.sessions == s.sessions
        }),
{
    let q = RoomModel { listed: false, ..r };
    let rooms = table::put(s.world.rooms, h, q);
    table::lemma_put_lookup(s.world.rooms, h, q, h);
    table::lemma_put_lookup(s.world.rooms, h, q, k);
    table::lemma_put_distinct(s.world.rooms, h, q);
    table::lemma_without_lookup(rooms, h, k);
    table::lemma_without_lookup(s.activity, r.id, id);
    table::lemma_without_lookup(s.admins, r.id, id);
}

/// Numbers that are listed once are the same numbers, each once.
pub proof fn law_unique(ids: Seq<i32>, id: i32)
    ensures
        unique(ids).contains(id) <==> ids.contains(id),
        unique(ids).no_duplicates(),
    decreases ids.len(),
{
    if ids.len() > 0 {
        let rest = ids.drop_last();
        law_unique(rest, id);
        law_unique(rest, ids.last());
        assert(ids =~= rest.push(ids.last()));
        lemma_pushed(rest, ids.last(), id);
        lemma_pushed(unique(rest), ids.last(), id);
    }
}

} // verus!
