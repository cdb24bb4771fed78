//! What the tables of the server keep: every connection, ban, address and room stands once in
//! each of them.
use crate::admin;
use crate::ban;
use crate::ban::{BanInfo, BanModel};
use crate::hub::UserModel;
use crate::presence;
use crate::presence::Profile;
use crate::room::RoomModel;
use crate::server;
use crate::server::{ServerModel, SessionModel};
use crate::table;
use crate::tidy;
use vstd::prelude::*;

verus! {

/// No key stands twice in a table of the server.
pub open spec fn keyed(s: ServerModel) -> bool {
    &&& table::distinct(s.sessions)
    &&& table::distinct(s.infos)
    &&& table::distinct(s.blacklist)
    &&& table::distinct(s.bans)
    &&& table::distinct(s.online)
    &&& table::distinct(s.activity)
    &&& table::distinct(s.admins)
}

/// On a server that has just started every key stands once.
pub proof fn law_start_keyed()
    ensures
        keyed(server::new_server()),
{
}

/// Entries that were taken out of a list of distinct keys, in order, have distinct keys.
proof fn lemma_pushed<I, V>(front: Seq<(I, V)>, e: (I, V))
    requires
        table::distinct(front),
        forall|i: int| 0 <= i < front.len() ==> (#[trigger] front[i]).0 != e.0,
    ensures
        table::distinct(front.push(e)),
{
    let t = front.push(e);
    assert forall|i: int, j: int| 0 <= i < j < t.len() implies (#[trigger] t[i]).0 != (
    #[trigger] t[j]).0 by {
        assert(t[i] == front[i]);
        if j < front.len() {
            assert(t[j] == front[j]);
        }
    }
}

/// The keys before the last one are distinct, and none of them is the last.
proof fn lemma_front<I, V>(s: Seq<(I, V)>)
    requires
        table::distinct(s),
        s.len() > 0,
    ensures
        table::distinct(s.drop_last()),
        forall|i: int| 0 <= i < s.drop_last().len() ==> (#[trigger] s.drop_last()[i]).0
            != s.last().0,
{
    let t = s.drop_last();
    assert forall|i: int, j: int| 0 <= i < j < t.len() implies (#[trigger] t[i]).0 != (
    #[trigger] t[j]).0 by {
        assert(s[i].0 != s[j].0);
    }
    assert forall|i: int| 0 <= i < t.len() implies (#[trigger] t[i]).0 != s.last().0 by {
        assert(s[i].0 != s[s.len() - 1].0);
    }
}

/// Restored bans stand once each.
pub proof fn law_restored_keyed(entries: Seq<(String, BanInfo)>)
    ensures
        table::distinct(ban::restored(entries)),
    decreases entries.len(),
{
    if entries.len() > 0 {
        law_restored_keyed(entries.drop_last());
        table::lemma_put_distinct(
            ban::restored(entries.drop_last()),
            entries.last().0@,
            entries.last().1@,
        );
    }
}

/// The bans that are not over stand once each, under keys that were there.
pub proof fn law_current_keyed(s: Seq<(Seq<char>, BanModel)>, now: u64)
    requires
        table::distinct(s),
    ensures
        table::distinct(ban::current(s, now)),
        forall|i: int|
            0 <= i < ban::current(s, now).len() ==> s.contains(
                #[trigger] ban::current(s, now)[i],
            ),
    decreases s.len(),
{
    if s.len() > 0 {
        lemma_front(s);
        law_current_keyed(s.drop_last(), now);
        let front = ban::current(s.drop_last(), now);
        lemma_from_front(s, front);
        if !ban::expired(s.last().1, now) {
            lemma_pushed(front, s.last());
        }
    }
}

/// Entries of the front of a list are entries of the list, under keys other than the last.
proof fn lemma_from_front<I, V>(s: Seq<(I, V)>, front: Seq<(I, V)>)
    requires
        s.len() > 0,
        table::distinct(s),
        forall|i: int| 0 <= i < front.len() ==> s.drop_last().contains(#[trigger] front[i]),
    ensures
        forall|i: int| 0 <= i < front.len() ==> (#[trigger] front[i]).0 != s.last().0,
        forall|i: int| 0 <= i < front.len() ==> s.contains(#[trigger] front[i]),
        s.contains(s.last()),
{
    assert(s[s.len() - 1] == s.last());
    assert forall|i: int| 0 <= i < front.len() implies (#[trigger] front[i]).0 != s.last().0
        && s.contains(front[i]) by {
        let k = choose|k: int| 0 <= k < s.drop_last().len() && s.drop_last()[k] == front[i];
        assert(s[k] == front[i]);
        assert(s[k].0 != s[s.len() - 1].0);
    }
}

/// Lifting a ban keeps the keys.
pub proof fn law_lifted_keyed(s: Seq<(Seq<char>, BanModel)>, id: Seq<char>)
    requires
        table::distinct(s),
    ensures
        ban::lifted(s, id) matches Ok(t) ==> table::distinct(t),
{
    table::lemma_without_lookup(s, id, id);
    let i = ban::ban_of_number(s, id);
    table::lemma_without_lookup(s, s[i].0, id);
}

/// A ban keeps the keys.
pub proof fn law_banned_keyed(s: ServerModel, b: BanModel)
    requires
        keyed(s),
    ensures
        keyed(ServerModel { bans: table::put(s.bans, ban::key_of(b), b), ..s }),
{
    table::lemma_put_distinct(s.bans, ban::key_of(b), b);
}

/// A user who comes in keeps the keys.
pub proof fn law_welcomed_keyed(
    s: ServerModel,
    session: u128,
    p: Profile,
    ip: Seq<char>,
    now: u64,
)
    requires
        keyed(s),
    ensures
        keyed(presence::welcomed(s, session, p, ip, now).0),
{
    table::lemma_put_distinct(s.sessions, session, p.id);
    table::lemma_put_distinct(
        s.infos,
        session,
        SessionModel { user_id: p.id, user_name: p.name@, ip_address: ip, connect_time: now },
    );
}

/// A lost connection keeps the keys.
pub proof fn law_lost_keyed(s: ServerModel, id: u128, pick: Option<i32>)
    requires
        keyed(s),
    ensures
        keyed(presence::connection_lost(s, id, pick)),
{
    table::lemma_without_lookup(s.sessions, id, id);
    table::lemma_without_lookup(s.infos, id, id);
}

/// Taking entries out keeps the keys.
pub proof fn law_without_keyed<V>(s: Seq<(u128, V)>, ids: Seq<u128>)
    requires
        table::distinct(s),
    ensures
        table::distinct(presence::all_without(s, ids)),
    decreases ids.len(),
{
    if ids.len() > 0 {
        law_without_keyed(s, ids.drop_last());
        table::lemma_without_lookup(
            presence::all_without(s, ids.drop_last()),
            ids.last(),
            ids.last(),
        );
    }
}

/// Noting the rooms that are on line keeps the keys.
pub proof fn law_refreshed_keyed(
    rooms: Seq<(u64, RoomModel)>,
    users: Seq<(i32, UserModel)>,
    activity: Seq<(Seq<char>, u128)>,
    now: u128,
)
    requires
        table::distinct(activity),
    ensures
        table::distinct(server::online_table(rooms, users, now)),
        table::distinct(server::activity_now(activity, rooms, now)),
    decreases rooms.len(),
{
    if rooms.len() > 0 {
        let front = rooms.drop_last();
        let r = rooms.last().1;
        law_refreshed_keyed(front, users, activity, now);
        table::lemma_put_distinct(
            server::online_table(front, users, now),
            r.id,
            server::online_info(r, users, now),
        );
        table::lemma_put_distinct(server::activity_now(activity, front, now), r.id, now);
    }
}

/// The sessions whose connections are still there stand once each.
pub proof fn law_connected_keyed(infos: Seq<(u128, SessionModel)>, sessions: Seq<(u128, i32)>)
    requires
        table::distinct(infos),
    ensures
        table::distinct(tidy::still_connected(infos, sessions)),
        forall|i: int|
            0 <= i < tidy::still_connected(infos, sessions).len() ==> infos.contains(
                #[trigger] tidy::still_connected(infos, sessions)[i],
            ),
    decreases infos.len(),
{
    if infos.len() > 0 {
        lemma_front(infos);
        law_connected_keyed(infos.drop_last(), sessions);
        let front = tidy::still_connected(infos.drop_last(), sessions);
        lemma_from_front(infos, front);
        if table::holds(sessions, infos.last().0) {
            lemma_pushed(front, infos.last());
        }
    }
}

/// The addresses that stay on the black list stand once each.
pub proof fn law_black_keyed(s: Seq<(Seq<char>, u128)>, now: u128)
    requires
        table::distinct(s),
    ensures
        table::distinct(tidy::still_black(s, now)),
        forall|i: int|
            0 <= i < tidy::still_black(s, now).len() ==> s.contains(
                #[trigger] tidy::still_black(s, now)[i],
            ),
    decreases s.len(),
{
    if s.len() > 0 {
        lemma_front(s);
        law_black_keyed(s.drop_last(), now);
        let front = tidy::still_black(s.drop_last(), now);
        lemma_from_front(s, front);
        if server::seconds_between(s.last().1, now) < server::BLACKLIST_SECONDS {
            lemma_pushed(front, s.last());
        }
    }
}

/// Dropping a room keeps the keys.
pub proof fn law_room_dropped_keyed(s: ServerModel, h: u64)
    requires
        keyed(s),
    ensures
        keyed(tidy::room_dropped(s, h)),
{
    if let Some(r) = table::lookup(s.world.rooms, h) {
        table::lemma_without_lookup(s.activity, r.id, r.id);
        table::lemma_without_lookup(s.admins, r.id, r.id);
    }
}

/// A room of an administrator keeps the keys.
pub proof fn law_room_made_keyed(s: ServerModel, id: Seq<char>, competition: bool, now: u128)
    requires
        keyed(s),
    ensures
        keyed(admin::room_made(s, id, competition, now).0),
{
    table::lemma_put_distinct(s.activity, id, now);
    table::lemma_put_distinct(s.admins, id, true);
}

/// The end of a deletion keeps the keys.
pub proof fn law_deletion_keyed(s: ServerModel, h: u64, id: Seq<char>, ids: Seq<i32>)
    requires
        keyed(s),
    ensures
        keyed(admin::deletion_ended(s, h, id, ids)),
{
    table::lemma_without_lookup(s.activity, id, id);
    table::lemma_without_lookup(s.admins, id, id);
}

} // verus!
