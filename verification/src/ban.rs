//! Who may not connect, and until when.
use crate::keys;
use crate::replay;
use crate::room;
use crate::table;
use crate::table::Table;
use crate::text;
use vstd::prelude::*;
use vstd::string::*;

verus! {

broadcast use table::group_views;

/// `SystemTime::now`, as a duration since 1970, in whole seconds; none where the clock of the
/// machine stands before then. Nothing is promised of a clock.
#[verifier::external_body]
fn since_epoch() -> (res: Option<u64>) {
    std::time::SystemTime::now().duration_since(std::time::UNIX_EPOCH).ok().map(|d| d.as_secs())
}

/// Seconds since 1970 by the clock of the machine, zero before then.
fn unix_seconds() -> (res: u64) {
    seconds_shown(since_epoch())
}

/// The seconds since 1970 that a clock shows, zero where it stands before then.
pub fn seconds_shown(clock: Option<u64>) -> (res: u64)
    ensures
        res == (match clock {
            Some(seconds) => seconds,
            None => 0,
        }),
{
    match clock {
        Some(seconds) => seconds,
        None => 0,
    }
}

/// What a ban is on.
#[derive(Debug, Clone, Copy, PartialEq, Eq, Structural)]
pub enum BanType {
    UserId,
    Ip,
    UserIdAndIp,
}

/// A ban.
#[derive(Debug, PartialEq, Eq)]
pub struct BanInfo {
    pub user_id: Option<i32>,
    pub user_name: Option<String>,
    pub ip_address: Option<String>,
    pub ban_reason: String,
    /// When the ban began, in seconds since 1970.
    pub ban_start: u64,
    /// How long it lasts, in seconds.
    pub ban_duration: u64,
    pub banned_by: String,
    pub ban_type: BanType,
}

/// What a [`BanInfo`] means.
#[verifier::ext_equal]
pub struct BanModel {
    pub user_id: Option<i32>,
    pub user_name: Option<Seq<char>>,
    pub ip_address: Option<Seq<char>>,
    pub reason: Seq<char>,
    pub start: u64,
    pub duration: u64,
    pub by: Seq<char>,
    pub kind: BanType,
}

/// The view of an optional text.
pub open spec fn opt_text(s: Option<String>) -> Option<Seq<char>> {
    match s {
        Some(t) => Some(t@),
        None => None,
    }
}

/// A copy of an optional text.
fn copy_text(s: &Option<String>) -> (res: Option<String>)
    ensures
        opt_text(res) == opt_text(*s),
{
    match s {
        Some(t) => Some(t.clone()),
        None => None,
    }
}

impl View for BanInfo {
    type V = BanModel;

    open spec fn view(&self) -> BanModel {
        BanModel {
            user_id: self.user_id,
            user_name: opt_text(self.user_name),
            ip_address: opt_text(self.ip_address),
            reason: self.ban_reason@,
            start: self.ban_start,
            duration: self.ban_duration,
            by: self.banned_by@,
            kind: self.ban_type,
        }
    }
}

/// When a ban ends.
pub open spec fn end_of(b: BanModel) -> int {
    b.start + b.duration
}

/// Whether the end of a ban is a time at all.
pub open spec fn has_end(b: BanModel) -> bool {
    end_of(b) <= u64::MAX
}

/// Whether a ban is over.
pub open spec fn expired(b: BanModel, now: u64) -> bool {
    now >= end_of(b)
}

/// Whether a ban is on a user: not where it is on an address alone.
pub open spec fn on_user(b: BanModel, user_id: i32) -> bool {
    b.kind != BanType::Ip && b.user_id == Some(user_id)
}

/// Whether a ban is on an address: not where it is on a user alone.
pub open spec fn on_ip(b: BanModel, ip: Seq<char>) -> bool {
    b.kind != BanType::UserId && b.ip_address == Some(ip)
}

impl BanInfo {
    /// A copy.
    pub fn duplicate(&self) -> (res: BanInfo)
        ensures
            res@ == self@,
    {
        BanInfo {
            user_id: self.user_id,
            user_name: copy_text(&self.user_name),
            ip_address: copy_text(&self.ip_address),
            ban_reason: self.ban_reason.clone(),
            ban_start: self.ban_start,
            ban_duration: self.ban_duration,
            banned_by: self.banned_by.clone(),
            ban_type: self.ban_type,
        }
    }

    /// Whether the ban is over at a given time.
    pub fn is_expired_at(&self, now: u64) -> (res: bool)
        requires
            has_end(self@),
        ensures
            res == expired(self@, now),
    {
        now >= self.ban_start + self.ban_duration
    }

    /// Whether the ban is over by the clock of the machine.
    pub fn is_expired(&self) -> (res: bool)
        requires
            has_end(self@),
        ensures
            exists|now: u64| res == #[trigger] expired(self@, now),
    {
        let now: u64 = unix_seconds();
        self.is_expired_at(now)
    }

    /// The seconds that are left of the ban at a given time.
    pub fn remaining_time_at(&self, now: u64) -> (res: u64)
        requires
            has_end(self@),
        ensures
            res == (if expired(self@, now) {
                0
            } else {
                end_of(self@) - now
            }),
    {
        let end: u64 = self.ban_start + self.ban_duration;
        if now >= end {
            0
        } else {
            end - now
        }
    }

    /// The seconds that are left of the ban by the clock of the machine.
    pub fn remaining_time(&self) -> (res: u64)
        requires
            has_end(self@),
        ensures
            exists|now: u64|
                res == (if #[trigger] expired(self@, now) {
                    0
                } else {
                    end_of(self@) - now
                }),
    {
        let now: u64 = unix_seconds();
        self.remaining_time_at(now)
    }

    /// When the ban ends.
    pub fn ban_end_time(&self) -> (res: u64)
        requires
            has_end(self@),
        ensures
            res == end_of(self@),
    {
        self.ban_start + self.ban_duration
    }

    /// Whether the ban is on a user.
    pub fn matches_user(&self, user_id: i32) -> (res: bool)
        ensures
            res == on_user(self@, user_id),
    {
        let same: bool = match self.user_id {
            Some(id) => id == user_id,
            None => false,
        };
        match self.ban_type {
            BanType::UserId => same,
            BanType::Ip => false,
            BanType::UserIdAndIp => same,
        }
    }

    /// Whether the ban is on an address.
    pub fn matches_ip(&self, ip_address: &str) -> (res: bool)
        ensures
            res == on_ip(self@, ip_address@),
    {
        let same: bool = match &self.ip_address {
            Some(ip) => text::same(ip.as_str(), ip_address),
            None => false,
        };
        match self.ban_type {
            BanType::UserId => false,
            BanType::Ip => same,
            BanType::UserIdAndIp => same,
        }
    }
}

/// The key that a ban is kept under: one for each user, address, or pair of them.
pub open spec fn key_of(b: BanModel) -> Seq<char> {
    let id = text::dec(
        match b.user_id {
            Some(id) => id as int,
            None => 0,
        },
    );
    let ip = match b.ip_address {
        Some(ip) => ip,
        None => ""@,
    };
    match b.kind {
        BanType::UserId => "user_"@ + id,
        BanType::Ip => "ip_"@ + ip,
        BanType::UserIdAndIp => "userip_"@ + id + "_"@ + ip,
    }
}

/// The bans.
#[derive(Debug, PartialEq, Eq)]
pub struct BanManager {
    pub banned_items: Table<String, BanInfo>,
}

impl View for BanManager {
    type V = Seq<(Seq<char>, BanModel)>;

    open spec fn view(&self) -> Seq<(Seq<char>, BanModel)> {
        table::views(self.banned_items@)
    }
}

/// Whether every ban has an end that is a time at all.
pub open spec fn all_end(s: Seq<(Seq<char>, BanModel)>) -> bool {
    forall|i: int| 0 <= i < s.len() ==> has_end((#[trigger] s[i]).1)
}

/// A ban that is on a user now.
pub open spec fn bans_user(s: Seq<(Seq<char>, BanModel)>, i: int, user_id: i32, now: u64) -> bool {
    0 <= i < s.len() && !expired(s[i].1, now) && on_user(s[i].1, user_id)
}

/// A ban that is on an address now.
pub open spec fn bans_ip(s: Seq<(Seq<char>, BanModel)>, i: int, ip: Seq<char>, now: u64) -> bool {
    0 <= i < s.len() && !expired(s[i].1, now) && on_ip(s[i].1, ip)
}

/// Bans, each under its key; the last one where a key stands twice.
pub open spec fn restored(entries: Seq<(String, BanInfo)>) -> Seq<(Seq<char>, BanModel)>
    decreases entries.len(),
{
    if entries.len() == 0 {
        Seq::empty()
    } else {
        table::put(restored(entries.drop_last()), entries.last().0@, entries.last().1@)
    }
}

/// The bans that are not over.
pub open spec fn current(s: Seq<(Seq<char>, BanModel)>, now: u64) -> Seq<(Seq<char>, BanModel)>
    decreases s.len(),
{
    if s.len() == 0 {
        s
    } else {
        let front = current(s.drop_last(), now);
        if expired(s.last().1, now) {
            front
        } else {
            front.push(s.last())
        }
    }
}

/// The bans themselves, without their keys.
pub open spec fn ban_list(s: Seq<(Seq<char>, BanModel)>) -> Seq<BanModel> {
    Seq::new(s.len(), |i: int| s[i].1)
}

/// The text that there is no such ban.
pub open spec fn no_such_ban() -> Seq<char> {
    "未找到对应的封禁记录"@
}

/// The first ban on a user, by its number, whatever else it is on and whether it is over;
/// or the number of bans.
pub open spec fn ban_of_number(s: Seq<(Seq<char>, BanModel)>, id: Seq<char>) -> int
    decreases s.len(),
{
    if s.len() == 0 {
        0
    } else if s[0].1.user_id matches Some(u) && text::dec(u as int) == id {
        0
    } else {
        1 + ban_of_number(s.skip(1), id)
    }
}

/// The bans after one was lifted, by its key or by the number of its user; or the text that
/// there is none.
pub open spec fn lifted(s: Seq<(Seq<char>, BanModel)>, id: Seq<char>) -> Result<
    Seq<(Seq<char>, BanModel)>,
    Seq<char>,
> {
    if table::holds(s, id) {
        Ok(table::without(s, id))
    } else if ban_of_number(s, id) < s.len() {
        Ok(table::without(s, s[ban_of_number(s, id)].0))
    } else {
        Err(no_such_ban())
    }
}

impl BanManager {
    /// No bans.
    pub fn new() -> (res: BanManager)
        ensures
            res@ == Seq::<(Seq<char>, BanModel)>::empty(),
            table::distinct(res@),
    {
        BanManager { banned_items: Table::new() }
    }

    /// The key that a ban is kept under.
    fn key_for(ban: &BanInfo) -> (res: String)
        ensures
            res@ == key_of(ban@),
    {
        let number: i32 = match ban.user_id {
            Some(id) => id,
            None => 0,
        };
        let id: String = text::i32_text(number);
        let ip: String = match &ban.ip_address {
            Some(ip) => ip.clone(),
            None => "".to_owned(),
        };
        match ban.ban_type {
            BanType::UserId => room::join2("user_", id.as_str()),
            BanType::Ip => room::join2("ip_", ip.as_str()),
            BanType::UserIdAndIp => {
                let mut s: String = "userip_".to_owned();
                s.append(id.as_str());
                s.append("_");
                s.append(ip.as_str());
                s
            },
        }
    }

    /// Whether every ban ends at a time at all.
    pub fn have_ends(&self) -> (res: bool)
        ensures
            res == all_end(self@),
    {
        let ghost all = self@;
        let mut i: usize = 0;
        while i < self.banned_items.len()
            invariant
                i <= self.banned_items@.len(),
                all == self@,
                forall|j: int| 0 <= j < i ==> has_end((#[trigger] all[j]).1),
            decreases self.banned_items@.len() - i,
        {
            let ban = self.banned_items.value(i);
            assert(all[i as int].1 == ban@);
            if ban.ban_start > u64::MAX - ban.ban_duration {
                return false;
            }
            i += 1;
        }
        true
    }

    /// Bans someone, in place of an earlier ban on the same.
    pub fn add_ban(&mut self, ban_info: BanInfo)
        ensures
            final(self)@ == table::put(old(self)@, key_of(ban_info@), ban_info@),
            table::distinct(old(self)@) ==> table::distinct(final(self)@),
    {
        proof {
            if table::distinct(self@) {
                table::lemma_put_distinct(self@, key_of(ban_info@), ban_info@);
            }
        }
        let key: String = BanManager::key_for(&ban_info);
        let _ = self.banned_items.insert(key, ban_info);
    }

    /// Lifts the ban under a key.
    pub fn remove_ban(&mut self, key: &String) -> (res: Result<(), String>)
        ensures
            final(self)@ == table::without(old(self)@, key@),
            match res {
                Ok(_) => table::holds(old(self)@, key@),
                Err(e) => !table::holds(old(self)@, key@) && e@ == no_such_ban(),
            },
            table::distinct(old(self)@) ==> table::distinct(final(self)@),
    {
        proof {
            if table::distinct(self@) {
                table::lemma_without_lookup(self@, key@, key@);
            }
        }
        match self.banned_items.remove(key) {
            Some(_) => Ok(()),
            None => Err("未找到对应的封禁记录".to_owned()),
        }
    }

    /// Lifts a ban, by its key or by the number of its user.
    pub fn unban(&mut self, id: &String) -> (res: Result<(), String>)
        ensures
            match lifted(old(self)@, id@) {
                Ok(s) => res is Ok && final(self)@ == s,
                Err(t) => (res matches Err(e) && e@ == t) && final(self)@ == old(self)@,
            },
            table::distinct(old(self)@) ==> table::distinct(final(self)@),
    {
        if self.banned_items.contains_key(id) {
            return self.remove_ban(id);
        }
        let ghost all = self@;
        let mut i: usize = 0;
        assert(all.skip(0) =~= all);
        while i < self.banned_items.len()
            invariant
                i <= self.banned_items@.len(),
                all == self@,
                *self == *old(self),
                !table::holds(all, id@),
                ban_of_number(all, id@) == i + ban_of_number(all.skip(i as int), id@),
            decreases self.banned_items@.len() - i,
        {
            let ghost here = all.skip(i as int);
            let ban = self.banned_items.value(i);
            assert(here[0].1 == ban@);
            if let Some(u) = ban.user_id {
                let number: String = text::i32_text(u);
                if number == *id {
                    let key: String = self.banned_items.key(i).clone();
                    proof {
                        assert(ban_of_number(here, id@) == 0);
                        assert(key@ == all[i as int].0);
                        lemma_key_held(all, i as int);
                    }
                    return self.remove_ban(&key);
                }
            }
            assert(here.skip(1) =~= all.skip(i + 1));
            i += 1;
        }
        Err("未找到对应的封禁记录".to_owned())
    }

    /// A ban that is on a user now, if there is one.
    pub fn is_user_banned(&self, user_id: i32, now: u64) -> (res: Option<BanInfo>)
        requires
            all_end(self@),
        ensures
            match res {
                Some(b) => exists|i: int|
                    #[trigger] bans_user(self@, i, user_id, now) && self@[i].1 == b@,
                None => forall|i: int| !#[trigger] bans_user(self@, i, user_id, now),
            },
    {
        let mut i: usize = 0;
        while i < self.banned_items.len()
            invariant
                i <= self.banned_items@.len(),
                all_end(self@),
                forall|j: int| j < i ==> !#[trigger] bans_user(self@, j, user_id, now),
            decreases self.banned_items@.len() - i,
        {
            let ban = self.banned_items.value(i);
            assert(self@[i as int].1 == ban@);
            if !ban.is_expired_at(now) && ban.matches_user(user_id) {
                assert(bans_user(self@, i as int, user_id, now));
                return Some(ban.duplicate());
            }
            i += 1;
        }
        None
    }

    /// A ban that is on an address now, if there is one.
    pub fn is_ip_banned(&self, ip_address: &str, now: u64) -> (res: Option<BanInfo>)
        requires
            all_end(self@),
        ensures
            match res {
                Some(b) => exists|i: int|
                    #[trigger] bans_ip(self@, i, ip_address@, now) && self@[i].1 == b@,
                None => forall|i: int| !#[trigger] bans_ip(self@, i, ip_address@, now),
            },
    {
        let mut i: usize = 0;
        while i < self.banned_items.len()
            invariant
                i <= self.banned_items@.len(),
                all_end(self@),
                forall|j: int| j < i ==> !#[trigger] bans_ip(self@, j, ip_address@, now),
            decreases self.banned_items@.len() - i,
        {
            let ban = self.banned_items.value(i);
            assert(self@[i as int].1 == ban@);
            if !ban.is_expired_at(now) && ban.matches_ip(ip_address) {
                assert(bans_ip(self@, i as int, ip_address@, now));
                return Some(ban.duplicate());
            }
            i += 1;
        }
        None
    }

    /// A ban that is on a user now, or else one that is on their address, if there is one.
    pub fn is_user_or_ip_banned(&self, user_id: i32, ip_address: &str, now: u64) -> (res: Option<
        BanInfo,
    >)
        requires
            all_end(self@),
        ensures
            match res {
                Some(b) => (exists|i: int|
                    #[trigger] bans_user(self@, i, user_id, now) && self@[i].1 == b@) || ((
                forall|i: int| !#[trigger] bans_user(self@, i, user_id, now)) && exists|i: int|
                    #[trigger] bans_ip(self@, i, ip_address@, now) && self@[i].1 == b@),
                None => (forall|i: int| !#[trigger] bans_user(self@, i, user_id, now)) && forall|
                    i: int,
                | !#[trigger] bans_ip(self@, i, ip_address@, now),
            },
    {
        match self.is_user_banned(user_id, now) {
            Some(ban) => Some(ban),
            None => self.is_ip_banned(ip_address, now),
        }
    }

    /// Restores bans, each under its key, in place of those that were there.
    pub fn restore(&mut self, entries: Vec<(String, BanInfo)>)
        ensures
            final(self)@ == restored(entries@),
            table::distinct(final(self)@),
    {
        proof {
            keys::law_restored_keyed(entries@);
        }
        self.banned_items.clear();
        let ghost all = entries@;
        let mut i: usize = 0;
        assert(all.take(0) =~= Seq::empty());
        while i < entries.len()
            invariant
                i <= entries@.len(),
                entries@ == all,
                self@ == restored(all.take(i as int)),
            decreases entries@.len() - i,
        {
            assert(all.take(i + 1).drop_last() =~= all.take(i as int));
            let key: String = entries[i].0.clone();
            let ban: BanInfo = entries[i].1.duplicate();
            let _ = self.banned_items.insert(key, ban);
            i += 1;
        }
        assert(all.take(i as int) =~= all);
    }

    /// The bans that are not over.
    pub fn get_all_bans(&self, now: u64) -> (res: Vec<BanInfo>)
        requires
            all_end(self@),
        ensures
            replay::list_views(res@) == ban_list(current(self@, now)),
    {
        let ghost all = self@;
        let mut res: Vec<BanInfo> = Vec::new();
        let mut i: usize = 0;
        assert(all.take(0) =~= Seq::empty());
        assert(replay::list_views(res@) =~= ban_list(current(all.take(0), now)));
        while i < self.banned_items.len()
            invariant
                i <= self.banned_items@.len(),
                all == self@,
                all_end(all),
                replay::list_views(res@) == ban_list(current(all.take(i as int), now)),
            decreases self.banned_items@.len() - i,
        {
            let ban = self.banned_items.value(i);
            proof {
                assert(all.take(i + 1).drop_last() =~= all.take(i as int));
                assert(all[i as int].1 == ban@);
            }
            if !ban.is_expired_at(now) {
                let copy: BanInfo = ban.duplicate();
                let ghost before = res@;
                res.push(copy);
                proof {
                    assert(replay::list_views(res@) =~= replay::list_views(before).push(copy@));
                    assert(ban_list(current(all.take(i + 1), now)) =~= ban_list(
                        current(all.take(i as int), now),
                    ).push(ban@));
                }
            }
            i += 1;
        }
        assert(all.take(i as int) =~= all);
        res
    }

    /// Drops the bans that are over.
    pub fn cleanup_expired_bans(&mut self, now: u64)
        requires
            all_end(old(self)@),
            table::distinct(old(self)@),
        ensures
            final(self)@ == current(old(self)@, now),
            table::distinct(final(self)@),
    {
        proof {
            keys::law_current_keyed(self@, now);
        }
        let ghost all = self@;
        let mut kept: Table<String, BanInfo> = Table::new();
        let mut i: usize = 0;
        assert(all.take(0) =~= Seq::empty());
        while i < self.banned_items.len()
            invariant
                i <= self.banned_items@.len(),
                all == self@,
                all_end(all),
                table::distinct(all),
                table::views(kept@) == current(all.take(i as int), now),
            decreases self.banned_items@.len() - i,
        {
            let ban = self.banned_items.value(i);
            proof {
                assert(all.take(i + 1).drop_last() =~= all.take(i as int));
                assert(all[i as int].1 == ban@);
            }
            if !ban.is_expired_at(now) {
                let key: String = self.banned_items.key(i).clone();
                let copy: BanInfo = ban.duplicate();
                proof {
                    lemma_current_keys(all, i as int, now);
                    let front = current(all.take(i as int), now);
                    table::lemma_find_is(front, key@, front.len() as int);
                }
                let _ = kept.insert(key, copy);
            }
            i += 1;
        }
        assert(all.take(i as int) =~= all);
        self.banned_items = kept;
    }
}

/// The key of an entry is held.
proof fn lemma_key_held(s: Seq<(Seq<char>, BanModel)>, i: int)
    requires
        0 <= i < s.len(),
    ensures
        table::holds(s, s[i].0),
{
    table::lemma_find(s, s[i].0);
}

/// Among distinct keys, the key of an entry is not one of those before it.
proof fn lemma_current_keys(s: Seq<(Seq<char>, BanModel)>, i: int, now: u64)
    requires
        table::distinct(s),
        0 <= i < s.len(),
    ensures
        forall|j: int|
            0 <= j < current(s.take(i), now).len() ==> (#[trigger] current(s.take(i), now)[j]).0
                != s[i].0,
{
    lemma_current_from(s.take(i), now);
    assert forall|j: int| 0 <= j < current(s.take(i), now).len() implies (#[trigger] current(
        s.take(i),
        now,
    )[j]).0 != s[i].0 by {
        let k = choose|k: int|
            0 <= k < s.take(i).len() && s.take(i)[k] == current(s.take(i), now)[j];
        assert(s[k].0 != s[i].0);
    }
}

/// The bans that are not over were there before.
proof fn lemma_current_from(s: Seq<(Seq<char>, BanModel)>, now: u64)
    ensures
        forall|j: int|
            0 <= j < current(s, now).len() ==> !expired((#[trigger] current(s, now)[j]).1, now)
                && exists|k: int| 0 <= k < s.len() && s[k] == current(s, now)[j],
    decreases s.len(),
{
    if s.len() > 0 {
        lemma_current_from(s.drop_last(), now);
        let front = current(s.drop_last(), now);
        assert forall|j: int| 0 <= j < current(s, now).len() implies !expired(
            (#[trigger] current(s, now)[j]).1,
            now,
        ) && exists|k: int| 0 <= k < s.len() && s[k] == current(s, now)[j] by {
            if j < front.len() {
                assert(current(s, now)[j] == front[j]);
                let k = choose|k: int| 0 <= k < s.drop_last().len() && s.drop_last()[k] == front[j];
                assert(s[k] == front[j]);
            } else {
                assert(s[s.len() - 1] == current(s, now)[j]);
            }
        }
    }
}

/// A ban takes hold: until it is over, the user whom it is on is banned.
pub proof fn law_ban_takes_hold(
    s: Seq<(Seq<char>, BanModel)>,
    b: BanModel,
    user_id: i32,
    now: u64,
)
    requires
        on_user(b, user_id),
        !expired(b, now),
    ensures
        exists|i: int| bans_user(table::put(s, key_of(b), b), i, user_id, now),
{
    let t = table::put(s, key_of(b), b);
    table::lemma_put_lookup(s, key_of(b), b, key_of(b));
    table::lemma_find(t, key_of(b));
    assert(bans_user(t, table::find(t, key_of(b)), user_id, now));
}

/// A ban ends: from its end on, it is on nobody, and dropping it changes nothing for anybody.
pub proof fn law_ban_ends(s: Seq<(Seq<char>, BanModel)>, user_id: i32, now: u64)
    ensures
        (exists|i: int| bans_user(s, i, user_id, now)) <==> (exists|i: int|
            bans_user(current(s, now), i, user_id, now)),
    decreases s.len(),
{
    lemma_current_from(s, now);
    if exists|i: int| bans_user(current(s, now), i, user_id, now) {
        let i = choose|i: int| bans_user(current(s, now), i, user_id, now);
        let k = choose|k: int| 0 <= k < s.len() && s[k] == current(s, now)[i];
        assert(bans_user(s, k, user_id, now));
    }
    if exists|i: int| bans_user(s, i, user_id, now) {
        let i = choose|i: int| bans_user(s, i, user_id, now);
        lemma_current_keeps(s, i, now);
        let k = choose|k: int| 0 <= k < current(s, now).len() && current(s, now)[k] == s[i];
        assert(bans_user(current(s, now), k, user_id, now));
    }
}

/// A ban that is not over is kept.
proof fn lemma_current_keeps(s: Seq<(Seq<char>, BanModel)>, i: int, now: u64)
    requires
        0 <= i < s.len(),
        !expired(s[i].1, now),
    ensures
        exists|k: int| 0 <= k < current(s, now).len() && current(s, now)[k] == s[i],
    decreases s.len(),
{
    let front = current(s.drop_last(), now);
    if i == s.len() - 1 {
        assert(current(s, now)[front.len() as int] == s[i]);
    } else {
        lemma_current_keeps(s.drop_last(), i, now);
        let k = choose|k: int| 0 <= k < front.len() && front[k] == s.drop_last()[i];
        assert(current(s, now)[k] == s[i]);
    }
}

/// A ban that is lifted by its key is gone, and the other bans stay.
pub proof fn law_ban_lifted(s: Seq<(Seq<char>, BanModel)>, b: BanModel, other: Seq<char>)
    requires
        table::distinct(s),
        other != key_of(b),
    ensures
        lifted(table::put(s, key_of(b), b), key_of(b)) matches Ok(t) && !table::holds(
            t,
            key_of(b),
        ) && table::lookup(t, other) == table::lookup(s, other),
{
    let t = table::put(s, key_of(b), b);
    table::lemma_put_lookup(s, key_of(b), b, key_of(b));
    table::lemma_put_lookup(s, key_of(b), b, other);
    table::lemma_put_distinct(s, key_of(b), b);
    table::lemma_without_lookup(t, key_of(b), other);
    table::lemma_without_lookup(t, key_of(b), key_of(b));
}

/// Dropping the bans that are over a second time drops nothing.
pub proof fn law_cleanup_once(s: Seq<(Seq<char>, BanModel)>, now: u64)
    ensures
        current(current(s, now), now) == current(s, now),
    decreases s.len(),
{
    if s.len() > 0 {
        let front = current(s.drop_last(), now);
        law_cleanup_once(s.drop_last(), now);
        assert(front.push(s.last()).drop_last() =~= front);
    }
}

/// A ban on users is kept apart from every other: two bans stand under one key only if they are
/// of one kind, and on the same user where that kind is on users, and on the same address where
/// it is on addresses.
pub proof fn law_keys_apart(a: BanModel, b: BanModel)
    requires
        a.kind != BanType::Ip ==> a.user_id is Some,
        b.kind != BanType::Ip ==> b.user_id is Some,
        a.kind != BanType::UserId ==> a.ip_address is Some,
        b.kind != BanType::UserId ==> b.ip_address is Some,
    ensures
        key_of(a) == key_of(b) <==> {
            &&& a.kind == b.kind
            &&& a.kind != BanType::Ip ==> a.user_id == b.user_id
            &&& a.kind != BanType::UserId ==> a.ip_address == b.ip_address
        },
{
    reveal_strlit("user_");
    reveal_strlit("ip_");
    reveal_strlit("userip_");
    reveal_strlit("_");
    let x = key_of(a);
    let y = key_of(b);
    assert(a.kind == BanType::UserId ==> x[0] == 'u' && x[4] == '_');
    assert(a.kind == BanType::Ip ==> x[0] == 'i');
    assert(a.kind == BanType::UserIdAndIp ==> x[0] == 'u' && x[4] == 'i');
    assert(b.kind == BanType::UserId ==> y[0] == 'u' && y[4] == '_');
    assert(b.kind == BanType::Ip ==> y[0] == 'i');
    assert(b.kind == BanType::UserIdAndIp ==> y[0] == 'u' && y[4] == 'i');
    if x == y {
        assert(a.kind == b.kind);
        match a.kind {
            BanType::UserId => {
                let i = text::dec(a.user_id->Some_0 as int);
                let j = text::dec(b.user_id->Some_0 as int);
                assert(x.skip(5) =~= i);
                assert(y.skip(5) =~= j);
                text::law_numbers_apart(a.user_id->Some_0 as int, b.user_id->Some_0 as int);
            },
            BanType::Ip => {
                assert(x.skip(3) =~= a.ip_address->Some_0);
                assert(y.skip(3) =~= b.ip_address->Some_0);
            },
            BanType::UserIdAndIp => {
                let i = text::dec(a.user_id->Some_0 as int);
                let j = text::dec(b.user_id->Some_0 as int);
                let p = a.ip_address->Some_0;
                let q = b.ip_address->Some_0;
                text::law_number_shape(a.user_id->Some_0 as int);
                text::law_number_shape(b.user_id->Some_0 as int);
                assert(x[7 + i.len() as int] == '_');
                assert(y[7 + j.len() as int] == '_');
                if i.len() < j.len() {
                    assert(y[7 + i.len() as int] == j[i.len() as int]);
                }
                if j.len() < i.len() {
                    assert(x[7 + j.len() as int] == i[j.len() as int]);
                }
                assert(i.len() == j.len());
                assert(x.subrange(7, 7 + i.len() as int) =~= i);
                assert(y.subrange(7, 7 + j.len() as int) =~= j);
                assert(x.skip(8 + i.len() as int) =~= p);
                assert(y.skip(8 + j.len() as int) =~= q);
                text::law_numbers_apart(a.user_id->Some_0 as int, b.user_id->Some_0 as int);
            },
        }
    }
}

/// A new ban takes the place of no other: every ban of another kind, on another user or on
/// another address is kept as it is.
pub proof fn law_other_bans_stay(s: Seq<(Seq<char>, BanModel)>, b: BanModel, i: int)
    requires
        0 <= i < s.len(),
        s[i].0 == key_of(s[i].1),
        s[i].1.kind != BanType::Ip ==> s[i].1.user_id is Some,
        s[i].1.kind != BanType::UserId ==> s[i].1.ip_address is Some,
        b.kind != BanType::Ip ==> b.user_id is Some,
        b.kind != BanType::UserId ==> b.ip_address is Some,
        ({
            ||| b.kind != s[i].1.kind
            ||| b.kind != BanType::Ip && b.user_id != s[i].1.user_id
            ||| b.kind != BanType::UserId && b.ip_address != s[i].1.ip_address
        }),
    ensures
        table::put(s, key_of(b), b).len() >= s.len(),
        table::put(s, key_of(b), b)[i] == s[i],
{
    law_keys_apart(s[i].1, b);
    table::lemma_find(s, key_of(b));
}

/// Who was banned stays banned when another user is banned.
pub proof fn law_still_banned(
    s: Seq<(Seq<char>, BanModel)>,
    b: BanModel,
    i: int,
    user_id: i32,
    now: u64,
)
    requires
        0 <= i < s.len(),
        s[i].0 == key_of(s[i].1),
        s[i].1.user_id == Some(user_id),
        s[i].1.kind == BanType::UserId,
        now < s[i].1.start + s[i].1.duration,
        b.kind == BanType::UserId,
        b.user_id is Some,
        b.user_id != Some(user_id),
    ensures
        exists|j: int| bans_user(table::put(s, key_of(b), b), j, user_id, now),
{
    law_other_bans_stay(s, b, i);
    assert(bans_user(table::put(s, key_of(b), b), i, user_id, now));
}

/// A second ban on the same takes the place of the first.
pub proof fn law_ban_renewed(s: Seq<(Seq<char>, BanModel)>, a: BanModel, b: BanModel)
    requires
        table::distinct(s),
        a.kind == b.kind,
        a.user_id == b.user_id,
        a.ip_address == b.ip_address,
    ensures
        ({
            let t = table::put(table::put(s, key_of(a), a), key_of(b), b);
            &&& t == table::put(s, key_of(b), b)
            &&& table::lookup(t, key_of(a)) == Some(b)
        }),
{
    table::lemma_find(s, key_of(a));
    let u = table::put(s, key_of(a), a);
    table::lemma_find_is(u, key_of(a), table::find(s, key_of(a)));
    table::lemma_put_lookup(u, key_of(b), b, key_of(b));
    assert(table::put(u, key_of(b), b) =~= table::put(s, key_of(b), b));
}

/// Who is banned: a ban keeps its user out unless it is on an address alone, from the moment it
/// is made until it has lasted as long as it should, and not a second longer.
pub proof fn law_who_is_banned(s: Seq<(Seq<char>, BanModel)>, i: int, user_id: i32, now: u64)
    requires
        0 <= i < s.len(),
    ensures
        bans_user(s, i, user_id, now) <==> s[i].1.user_id == Some(user_id) && (s[i].1.kind
            == BanType::UserId || s[i].1.kind == BanType::UserIdAndIp) && now < s[i].1.start
            + s[i].1.duration,
{
}

/// Which address is banned: a ban keeps its address out unless it is on a user alone, from the
/// moment it is made until it has lasted as long as it should.
pub proof fn law_which_address_is_banned(
    s: Seq<(Seq<char>, BanModel)>,
    i: int,
    ip: Seq<char>,
    now: u64,
)
    requires
        0 <= i < s.len(),
    ensures
        bans_ip(s, i, ip, now) <==> s[i].1.ip_address == Some(ip) && (s[i].1.kind == BanType::Ip
            || s[i].1.kind == BanType::UserIdAndIp) && now < s[i].1.start + s[i].1.duration,
{
}

/// The bans that are listed are those that are not over, all of them and no others.
pub proof fn law_listed_bans(s: Seq<(Seq<char>, BanModel)>, now: u64, e: (Seq<char>, BanModel))
    ensures
        current(s, now).contains(e) <==> s.contains(e) && now < e.1.start + e.1.duration,
{
    lemma_current_from(s, now);
    if current(s, now).contains(e) {
        let j = choose|j: int| 0 <= j < current(s, now).len() && current(s, now)[j] == e;
        assert(!expired(current(s, now)[j].1, now));
        let k = choose|k: int| 0 <= k < s.len() && s[k] == current(s, now)[j];
        assert(s[k] == e);
    }
    if s.contains(e) && now < e.1.start + e.1.duration {
        let i = choose|i: int| 0 <= i < s.len() && s[i] == e;
        lemma_current_keeps(s, i, now);
        let k = choose|k: int| 0 <= k < current(s, now).len() && current(s, now)[k] == s[i];
        assert(current(s, now)[k] == e);
    }
}

/// Lifting a ban by the number of a user takes a ban on that user away, and leaves every ban on
/// anybody else.
pub proof fn law_lifted_by_number(s: Seq<(Seq<char>, BanModel)>, user_id: i32)
    requires
        table::distinct(s),
        !table::holds(s, text::dec(user_id as int)),
    ensures
        match lifted(s, text::dec(user_id as int)) {
            Ok(t) => {
                &&& t.len() + 1 == s.len()
                &&& exists|i: int|
                    0 <= i < s.len() && (#[trigger] s[i]).1.user_id == Some(user_id) && t
                        == s.remove(i)
            },
            Err(_) => forall|i: int|
                0 <= i < s.len() ==> (#[trigger] s[i]).1.user_id != Some(user_id),
        },
{
    let id = text::dec(user_id as int);
    lemma_ban_of_number(s, user_id);
    let i = ban_of_number(s, id);
    if i < s.len() {
        assert forall|j: int| 0 <= j < i implies (#[trigger] s[j]).0 != s[i].0 by {}
        table::lemma_find_is(s, s[i].0, i);
        assert(s[i].1.user_id == Some(user_id));
        assert(lifted(s, id) == Ok::<Seq<(Seq<char>, BanModel)>, Seq<char>>(s.remove(i)));
    }
}

/// The ban that is found by the number of a user is the first one on that user.
proof fn lemma_ban_of_number(s: Seq<(Seq<char>, BanModel)>, user_id: i32)
    ensures
        ({
            let i = ban_of_number(s, text::dec(user_id as int));
            &&& 0 <= i <= s.len()
            &&& i < s.len() ==> s[i].1.user_id == Some(user_id)
            &&& forall|j: int| 0 <= j < i ==> (#[trigger] s[j]).1.user_id != Some(user_id)
        }),
    decreases s.len(),
{
    if s.len() > 0 {
        if let Some(u) = s[0].1.user_id {
            text::law_numbers_apart(u as int, user_id as int);
        }
        let i = ban_of_number(s, text::dec(user_id as int));
        if s[0].1.user_id != Some(user_id) {
            let rest = s.skip(1);
            lemma_ban_of_number(rest, user_id);
            assert(i == 1 + ban_of_number(rest, text::dec(user_id as int)));
            assert(i < s.len() ==> s[i] == rest[i - 1]);
            assert forall|j: int| 0 <= j < i implies (#[trigger] s[j]).1.user_id != Some(
                user_id,
            ) by {
                if j > 0 {
                    assert(s[j] == rest[j - 1]);
                }
            }
        }
    }
}

/// What is read back of bans: under each key the last that is written there, and under every other
/// what was there before it.
pub proof fn law_restored(entries: Seq<(String, BanInfo)>, key: String, ban: BanInfo, other: Seq<char>)
    ensures
        ({
            let before = restored(entries);
            let after = restored(entries.push((key, ban)));
            &&& table::lookup(after, key@) == Some(ban@)
            &&& other != key@ ==> table::lookup(after, other) == table::lookup(before, other)
            &&& table::lookup(restored(Seq::empty()), other) is None
        }),
{
    assert(entries.push((key, ban)).drop_last() =~= entries);
    table::lemma_put_lookup(restored(entries), key@, ban@, key@);
    table::lemma_put_lookup(restored(entries), key@, ban@, other);
}

/// While a ban lasts, the time that remains of it and the time that it is add up to its end; after
/// that none remains.
pub proof fn law_time_left(ban: &BanInfo, now: u64, left: u64)
    requires
        call_ensures(BanInfo::remaining_time_at, (ban, now), left),
        ban.ban_start + ban.ban_duration <= u64::MAX,
    ensures
        left > 0 ==> now + left == ban.ban_start + ban.ban_duration,
        left == 0 <==> now >= ban.ban_start + ban.ban_duration,
{
}

} // verus!
