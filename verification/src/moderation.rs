//! Bans and maintenance: who is sent away, and what they are told.
use crate::admin::Refused;
use crate::ban;
use crate::ban::{BanInfo, BanModel, BanType};
use crate::bin;
use crate::keys;
use crate::presence;
use crate::room;
use crate::server::{ServerModel, ServerState, SessionModel};
use crate::table;
use crate::text;
use vstd::prelude::*;
use vstd::string::*;

verus! {

broadcast use table::group_views;

/// The request for a ban.
#[derive(Debug, PartialEq, Eq)]
pub struct BanRequest {
    pub user_id: Option<i32>,
    pub user_name: Option<String>,
    pub ip_address: Option<String>,
    pub ban_reason: String,
    /// In seconds.
    pub ban_duration: u64,
    pub banned_by: String,
    pub ban_type: String,
}

/// What a word says that a ban is on.
pub open spec fn kind_named(word: Seq<char>) -> Option<BanType> {
    if word == "user"@ {
        Some(BanType::UserId)
    } else if word == "ip"@ {
        Some(BanType::Ip)
    } else if word == "user_and_ip"@ {
        Some(BanType::UserIdAndIp)
    } else {
        None
    }
}

/// The ban that is asked for.
pub open spec fn asked_ban(req: BanRequest, kind: BanType, now: u64) -> BanModel {
    BanModel {
        user_id: req.user_id,
        user_name: ban::opt_text(req.user_name),
        ip_address: ban::opt_text(req.ip_address),
        reason: req.ban_reason@,
        start: now,
        duration: req.ban_duration,
        by: req.banned_by@,
        kind,
    }
}

/// The sessions that a ban ends: those of its user, those from its address, or both.
pub open spec fn sessions_ended(s: ServerModel, b: BanModel) -> Seq<u128> {
    presence::sessions_of(
        s.infos,
        if b.kind == BanType::Ip {
            None
        } else {
            b.user_id
        },
        if b.kind == BanType::UserId {
            None
        } else {
            b.ip_address
        },
    )
}

/// What a word says that a ban is on.
pub fn ban_type_named(word: &str) -> (res: Option<BanType>)
    ensures
        res == kind_named(word@),
{
    if text::same(word, "user") {
        Some(BanType::UserId)
    } else if text::same(word, "ip") {
        Some(BanType::Ip)
    } else if text::same(word, "user_and_ip") {
        Some(BanType::UserIdAndIp)
    } else {
        None
    }
}

/// What someone is told who is sent away by a ban.
pub open spec fn kick_text(reason: Seq<char>, until: Seq<char>) -> Seq<char> {
    "该账号已被封禁，封禁理由: "@ + reason + "，封禁结束时间: "@ + until
}

/// What someone is told who is sent away by a ban; `until` is when it ends.
pub fn kick_message(reason: &str, until: &str) -> (res: String)
    ensures
        res@ == kick_text(reason@, until@),
{
    room::join4("该账号已被封禁，封禁理由: ", reason, "，封禁结束时间: ", until)
}

/// The user whose sessions a request asks to end: the low 32 bits of the number in it.
pub fn asked_user(user_id: Option<i64>) -> (res: Result<i32, Refused>)
    ensures
        match res {
            Ok(id) => user_id matches Some(v) && bin::unsigned32(id) as int == v as int
                % 0x1_0000_0000,
            Err(e) => user_id is None && e@ == (400u16, "缺少user_id"@),
        },
{
    match user_id {
        Some(v) => {
            let shifted: u64 = (v as i128 + 0x8000_0000_0000_0000) as u64;
            let low: u64 = shifted % 0x1_0000_0000;
            if low < 0x8000_0000 {
                Ok(low as i32)
            } else {
                Ok((low as i64 - 0x1_0000_0000) as i32)
            }
        },
        None => Err(Refused { status: 400, text: "缺少user_id".to_owned() }),
    }
}

/// The answer to a request to end all sessions of a user.
pub fn disconnection_answer(user_id: i32, count: u64) -> (res: Result<String, Refused>)
    ensures
        match res {
            Ok(s) => count > 0 && s@ == "已断开用户ID "@ + text::dec(user_id as int) + " 的 "@
                + text::dec(count as int) + " 个连接"@,
            Err(e) => count == 0 && e@ == (404u16, "未找到匹配用户ID的会话"@),
        },
{
    if count > 0 {
        let id: String = text::i32_text(user_id);
        let n: String = text::u64_text(count);
        Ok(room::join5("已断开用户ID ", id.as_str(), " 的 ", n.as_str(), " 个连接"))
    } else {
        Err(Refused { status: 404, text: "未找到匹配用户ID的会话".to_owned() })
    }
}

/// Whether something is on, in words.
pub open spec fn switch_words(enabled: bool) -> Seq<char> {
    if enabled {
        "开启"@
    } else {
        "关闭"@
    }
}

/// The answer to a request to begin or end maintenance.
pub fn maintenance_answer(enabled: bool, count: u64) -> (res: String)
    ensures
        res@ == "维护模式已"@ + switch_words(enabled) + "，已断开 "@ + text::dec(count as int)
            + " 个非白名单用户的连接"@,
{
    let words: &str = if enabled {
        "开启"
    } else {
        "关闭"
    };
    let n: String = text::u64_text(count);
    room::join5("维护模式已", words, "，已断开 ", n.as_str(), " 个非白名单用户的连接")
}

/// Whether the server is being maintained, and for whom it is open then.
#[derive(Debug, PartialEq, Eq)]
pub struct MaintenanceConfig {
    pub enabled: bool,
    pub whitelist: Vec<i32>,
}

impl Default for MaintenanceConfig {
    fn default() -> (res: MaintenanceConfig)
        ensures
            !res.enabled,
            res.whitelist@ == Seq::<i32>::empty(),
    {
        MaintenanceConfig { enabled: false, whitelist: Vec::new() }
    }
}

/// The sessions that maintenance ends: those of users without a place on a list, as far as
/// their connections are there.
pub open spec fn shut_sessions(
    infos: Seq<(u128, SessionModel)>,
    sessions: Seq<(u128, i32)>,
    list: Seq<i32>,
) -> Seq<u128>
    decreases infos.len(),
{
    if infos.len() == 0 {
        Seq::empty()
    } else {
        let front = shut_sessions(infos.drop_last(), sessions, list);
        let (id, info) = infos.last();
        if !list.contains(info.user_id) && table::holds(sessions, id) {
            front.push(id)
        } else {
            front
        }
    }
}

impl ServerState {
    /// Bans someone; gives the sessions that the ban ends. `now` is in seconds since 1970.
    pub fn ban(&mut self, req: BanRequest, now: u64) -> (res: Result<Vec<u128>, Refused>)
        requires
            now + req.ban_duration <= u64::MAX,
        ensures
            match kind_named(req.ban_type@) {
                Some(kind) => {
                    let b = asked_ban(req, kind, now);
                    &&& res matches Ok(ids)
                    &&& ids@ == sessions_ended(old(self)@, b)
                    &&& final(self)@ == (ServerModel {
                        bans: table::put(old(self)@.bans, ban::key_of(b), b),
                        ..old(self)@
                    })
                },
                None => (res matches Err(e) && e@ == (400u16, "无效的封禁类型"@)) && final(self)@
                    == old(self)@,
            },
            ban::all_end(old(self)@.bans) ==> ban::all_end(final(self)@.bans),
            final(self).config == old(self).config,
            keys::keyed(old(self)@) ==> keys::keyed(final(self)@),
    {
        let kind: BanType = match ban_type_named(req.ban_type.as_str()) {
            Some(kind) => kind,
            None => {
                return Err(Refused { status: 400, text: "无效的封禁类型".to_owned() });
            },
        };
        let ghost b = asked_ban(req, kind, now);
        let info = BanInfo {
            user_id: req.user_id,
            user_name: req.user_name,
            ip_address: req.ip_address,
            ban_reason: req.ban_reason,
            ban_start: now,
            ban_duration: req.ban_duration,
            banned_by: req.banned_by,
            ban_type: kind,
        };
        let user_id: Option<i32> = match kind {
            BanType::Ip => None,
            _ => info.user_id,
        };
        let ids: Vec<u128> = match kind {
            BanType::UserId => self.find_sessions(user_id, &None),
            _ => self.find_sessions(user_id, &info.ip_address),
        };
        proof {
            lemma_ban_added(self@.bans, b);
            if keys::keyed(self@) {
                keys::law_banned_keyed(self@, b);
            }
        }
        self.ban_manager.add_ban(info);
        Ok(ids)
    }

    /// Begins or ends maintenance.
    pub fn set_maintenance(&mut self, enabled: bool)
        ensures
            final(self)@ == (ServerModel { maintenance: enabled, ..old(self)@ }),
            final(self).config == old(self).config,
            keys::keyed(old(self)@) ==> keys::keyed(final(self)@),
    {
        self.maintenance_mode = enabled;
    }

    /// Begins or ends maintenance; gives the sessions that have to end, which are none where
    /// maintenance ends.
    pub fn begin_maintenance(&mut self, enabled: bool) -> (ids: Vec<u128>)
        ensures
            final(self)@ == (ServerModel { maintenance: enabled, ..old(self)@ }),
            ids@ == (if enabled {
                shut_sessions(old(self)@.infos, old(self)@.sessions, old(self)@.whitelist)
            } else {
                Seq::empty()
            }),
            final(self).config == old(self).config,
            keys::keyed(old(self)@) ==> keys::keyed(final(self)@) && ids@.no_duplicates(),
    {
        let ghost infos = self@.infos;
        let ghost sessions = self@.sessions;
        let ghost list = self@.whitelist;
        proof {
            if keys::keyed(self@) {
                law_maintenance(infos, sessions, list);
            }
        }
        self.set_maintenance(enabled);
        let mut ids: Vec<u128> = Vec::new();
        if !enabled {
            return ids;
        }
        let mut i: usize = 0;
        assert(infos.take(0) =~= Seq::empty());
        while i < self.session_info.len()
            invariant
                i <= self.session_info@.len(),
                infos == self@.infos,
                sessions == self@.sessions,
                list == self@.whitelist,
                ids@ == shut_sessions(infos.take(i as int), sessions, list),
            decreases self.session_info@.len() - i,
        {
            let info = self.session_info.value(i);
            let id: u128 = *self.session_info.key(i);
            proof {
                assert(infos.take(i + 1).drop_last() =~= infos.take(i as int));
                assert(infos[i as int] == (id, info@));
            }
            if !text::contains_id(&self.maintenance_whitelist, info.user_id)
                && self.sessions.contains_key(&id) {
                ids.push(id);
            }
            i += 1;
        }
        assert(infos.take(i as int) =~= infos);
        ids
    }

    /// Lists the users for whom the server is open during maintenance, by their numbers
    /// between commas.
    pub fn set_whitelist(&mut self, ids: &str)
        ensures
            final(self)@ == (ServerModel { whitelist: text::id_list(ids@), ..old(self)@ }),
            final(self).config == old(self).config,
            keys::keyed(old(self)@) ==> keys::keyed(final(self)@),
    {
        self.maintenance_whitelist = text::parse_id_list(ids);
    }

    /// Whether the server is being maintained, and for whom it is open then.
    pub fn maintenance_config(&self) -> (res: MaintenanceConfig)
        ensures
            res.enabled == self@.maintenance,
            res.whitelist@ == self@.whitelist,
    {
        MaintenanceConfig {
            enabled: self.maintenance_mode,
            whitelist: room::copy_ids(&self.maintenance_whitelist),
        }
    }
}

/// Bans end after one more that ends.
proof fn lemma_ban_added(s: Seq<(Seq<char>, BanModel)>, b: BanModel)
    requires
        ban::has_end(b),
    ensures
        ban::all_end(s) ==> ban::all_end(table::put(s, ban::key_of(b), b)),
{
    let t = table::put(s, ban::key_of(b), b);
    table::lemma_find(s, ban::key_of(b));
    if ban::all_end(s) {
        assert forall|i: int| 0 <= i < t.len() implies ban::has_end((#[trigger] t[i]).1) by {
            if i < s.len() {
                assert(ban::has_end(s[i].1));
            }
        }
    }
}

/// Someone who has just been banned may not come in until the ban is over.
pub proof fn law_banned_stays_out(s: ServerModel, b: BanModel, user_id: i32, ip: Seq<char>, now: u64)
    requires
        ban::on_user(b, user_id),
        !ban::expired(b, now),
    ensures
        presence::is_banned(
            ServerModel { bans: table::put(s.bans, ban::key_of(b), b), ..s },
            user_id,
            ip,
            now,
        ),
{
    let t = table::put(s.bans, ban::key_of(b), b);
    table::lemma_find(s.bans, ban::key_of(b));
    let i = table::find(s.bans, ban::key_of(b));
    let v = ServerModel { bans: t, ..s };
    assert(v.bans[i].1 == b);
    assert(ban::bans_user(v.bans, i, user_id, now));
}

/// A ban ends every session of its user, and every one from its address.
pub proof fn law_sessions_ended(s: ServerModel, b: BanModel, i: int)
    requires
        0 <= i < s.infos.len(),
        ban::on_user(b, s.infos[i].1.user_id) || ban::on_ip(b, s.infos[i].1.ip_address),
    ensures
        sessions_ended(s, b).contains(s.infos[i].0),
{
    let u = if b.kind == BanType::Ip {
        None
    } else {
        b.user_id
    };
    let a = if b.kind == BanType::UserId {
        None
    } else {
        b.ip_address
    };
    lemma_session_of(s.infos, u, a, i);
}

/// A ban ends no other sessions.
pub proof fn law_no_other_ended(s: ServerModel, b: BanModel, k: int)
    requires
        0 <= k < sessions_ended(s, b).len(),
    ensures
        exists|i: int|
            0 <= i < s.infos.len() && (#[trigger] s.infos[i]).0 == sessions_ended(s, b)[k] && (
            ban::on_user(b, s.infos[i].1.user_id) || ban::on_ip(b, s.infos[i].1.ip_address)),
{
    let u = if b.kind == BanType::Ip {
        None
    } else {
        b.user_id
    };
    let a = if b.kind == BanType::UserId {
        None
    } else {
        b.ip_address
    };
    lemma_session_from(s.infos, u, a, k);
}

/// A session that is found was looked for.
proof fn lemma_session_from(
    infos: Seq<(u128, crate::server::SessionModel)>,
    user_id: Option<i32>,
    ip: Option<Seq<char>>,
    k: int,
)
    requires
        0 <= k < presence::sessions_of(infos, user_id, ip).len(),
    ensures
        exists|i: int|
            0 <= i < infos.len() && (#[trigger] infos[i]).0 == presence::sessions_of(
                infos,
                user_id,
                ip,
            )[k] && (user_id == Some(infos[i].1.user_id) || ip == Some(infos[i].1.ip_address)),
    decreases infos.len(),
{
    let front = presence::sessions_of(infos.drop_last(), user_id, ip);
    if k < front.len() {
        lemma_session_from(infos.drop_last(), user_id, ip, k);
        let rest = infos.drop_last();
        let i = choose|i: int|
            0 <= i < rest.len() && (#[trigger] rest[i]).0 == front[k] && (user_id == Some(
                rest[i].1.user_id,
            ) || ip == Some(rest[i].1.ip_address));
        assert(infos[i] == rest[i]);
    } else {
        assert(infos[infos.len() - 1] == infos.last());
    }
}

/// A session that is looked for is found.
proof fn lemma_session_of(
    infos: Seq<(u128, crate::server::SessionModel)>,
    user_id: Option<i32>,
    ip: Option<Seq<char>>,
    i: int,
)
    requires
        0 <= i < infos.len(),
        user_id == Some(infos[i].1.user_id) || ip == Some(infos[i].1.ip_address),
    ensures
        presence::sessions_of(infos, user_id, ip).contains(infos[i].0),
    decreases infos.len(),
{
    let all = presence::sessions_of(infos, user_id, ip);
    let front = presence::sessions_of(infos.drop_last(), user_id, ip);
    if i == infos.len() - 1 {
        assert(all == front.push(infos[i].0));
        assert(all[all.len() - 1] == infos[i].0);
    } else {
        lemma_session_of(infos.drop_last(), user_id, ip, i);
        let k = choose|k: int| 0 <= k < front.len() && front[k] == infos[i].0;
        assert(all[k] == infos[i].0);
    }
}

/// Maintenance ends exactly the sessions of users without a place on the list, each once.
pub proof fn law_maintenance(
    infos: Seq<(u128, SessionModel)>,
    sessions: Seq<(u128, i32)>,
    list: Seq<i32>,
)
    requires
        table::distinct(infos),
    ensures
        shut_sessions(infos, sessions, list).no_duplicates(),
        forall|id: u128|
            #![trigger shut_sessions(infos, sessions, list).contains(id)]
            shut_sessions(infos, sessions, list).contains(id) <==> table::holds(sessions, id) && (
            table::lookup(infos, id) matches Some(info) && !list.contains(info.user_id)),
    decreases infos.len(),
{
    let all = shut_sessions(infos, sessions, list);
    if infos.len() == 0 {
        assert forall|id: u128| #[trigger] all.contains(id) implies false by {}
    } else {
        let front = infos.drop_last();
        let ids = shut_sessions(front, sessions, list);
        let (last, info) = infos.last();
        assert forall|i: int, j: int| 0 <= i < j < front.len() implies (#[trigger] front[i]).0 != (
        #[trigger] front[j]).0 by {
            assert(infos[i].0 != infos[j].0);
        }
        law_maintenance(front, sessions, list);
        assert forall|j: int| 0 <= j < front.len() implies (#[trigger] infos[j]).0 != last by {
            assert(infos[j].0 != infos[infos.len() - 1].0);
        }
        table::lemma_find_is(infos, last, infos.len() - 1);
        table::lemma_find_is(front, last, front.len() as int);
        assert(table::lookup(front, last) is None);
        assert(!ids.contains(last));
        assert forall|id: u128| #[trigger] all.contains(id) <==> table::holds(sessions, id) && (
        table::lookup(infos, id) matches Some(info) && !list.contains(info.user_id)) by {
            if id == last {
                if all.len() > ids.len() {
                    assert(all[all.len() - 1] == last);
                }
            } else {
                assert(infos =~= front.push(infos.last()));
                table::lemma_put_lookup(front, last, info, id);
                assert(table::put(front, last, info) =~= infos);
                assert(ids.contains(id) == all.contains(id)) by {
                    if ids.contains(id) {
                        let k = choose|k: int| 0 <= k < ids.len() && ids[k] == id;
                        assert(all[k] == id);
                    }
                    if all.contains(id) {
                        let k = choose|k: int| 0 <= k < all.len() && all[k] == id;
                        assert(ids[k] == id);
                    }
                }
            }
        }
    }
}

/// What the words for a ban mean.
pub proof fn law_ban_words()
    ensures
        kind_named("user"@) == Some(BanType::UserId),
        kind_named("ip"@) == Some(BanType::Ip),
        kind_named("user_and_ip"@) == Some(BanType::UserIdAndIp),
        forall|word: Seq<char>|
            word != "user"@ && word != "ip"@ && word != "user_and_ip"@ ==> #[trigger] kind_named(
                word,
            ) is None,
{
    reveal_strlit("user");
    reveal_strlit("ip");
    reveal_strlit("user_and_ip");
    assert("user"@.len() == 4 && "ip"@.len() == 2 && "user_and_ip"@.len() == 11);
}

/// The ban that is made is the one that was asked for: on that user and that address, for that
/// reason, by that person, from now on and for that long.
pub proof fn law_ban_as_asked(req: BanRequest, kind: BanType, now: u64)
    ensures
        ({
            let b = asked_ban(req, kind, now);
            &&& b.kind == kind
            &&& b.user_id == req.user_id
            &&& req.ip_address matches Some(ip) ==> b.ip_address == Some(ip@)
            &&& req.ip_address is None ==> b.ip_address is None
            &&& req.user_name matches Some(name) ==> b.user_name == Some(name@)
            &&& req.user_name is None ==> b.user_name is None
            &&& b.reason == req.ban_reason@
            &&& b.by == req.banned_by@
            &&& b.start == now
            &&& b.duration == req.ban_duration
        }),
{
}

/// A ban ends the sessions of its user unless it is on an address alone, and those from its
/// address unless it is on a user alone, and no others.
pub proof fn law_whose_sessions_end(s: ServerModel, b: BanModel, id: u128)
    ensures
        sessions_ended(s, b).contains(id) <==> exists|i: int|
            0 <= i < s.infos.len() && (#[trigger] s.infos[i]).0 == id && ({
                ||| b.kind != BanType::Ip && b.user_id == Some(s.infos[i].1.user_id)
                ||| b.kind != BanType::UserId && b.ip_address == Some(s.infos[i].1.ip_address)
            }),
{
    let u = if b.kind == BanType::Ip {
        None
    } else {
        b.user_id
    };
    let a = if b.kind == BanType::UserId {
        None
    } else {
        b.ip_address
    };
    presence::law_sessions_found(s.infos, u, a, id);
}

/// What someone who is banned is told as they are sent away, and what is said of a switch.
pub proof fn law_told_of_ban(reason: Seq<char>, until: Seq<char>)
    ensures
        kick_text(reason, until) == "该账号已被封禁，封禁理由: "@ + reason + "，封禁结束时间: "@
            + until,
        switch_words(true) == "开启"@,
        switch_words(false) == "关闭"@,
{
}

/// A number that a user can have is the number that is asked for; without one the request is
/// refused.
pub proof fn law_asked_user(v: i32, id: Result<i32, Refused>, none: Result<i32, Refused>)
    requires
        call_ensures(asked_user, (Some(v as i64),), id),
        call_ensures(asked_user, (None::<i64>,), none),
    ensures
        id matches Ok(x) && x == v,
        none is Err,
{
}

} // verus!
