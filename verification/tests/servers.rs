use phira_mp::admin::{
    group_message, inspection_message, live_answer, unnamed_chart, Countdown, COUNTDOWN_SECONDS,
};
use phira_mp::command::{
    ClientCommand, Message, RoomId, RoomState, ServerCommand, UserInfo, Varchar,
};
use phira_mp::hub::{Chart, Effect};
use phira_mp::moderation::{
    asked_user, disconnection_answer, kick_message, maintenance_answer, BanRequest,
};
use phira_mp::players::is_news;
use phira_mp::presence::{
    ban_message, is_overdue, maintenance_message, Heed, Link, Profile,
};
use phira_mp::server::{ServerConfig, ServerState, UploadConfig};
use phira_mp::session::{Settings, Texts};

fn texts() -> Texts {
    let s = || "t".to_string();
    Texts {
        create_id_occupied: s(),
        join_room_locked: s(),
        join_game_ongoing: s(),
        join_cant_monitor: s(),
        join_room_full: s(),
        start_no_chart_selected: s(),
        chart_select_not_now: s(),
        chart_not_uploaded_yet: s(),
    }
}

fn settings() -> Settings {
    Settings { monitors: vec![2], web_port: None, public_ip: String::new() }
}

fn room_id(s: &str) -> RoomId {
    RoomId::try_from(s.to_string()).unwrap()
}

fn text(s: &str) -> String {
    s.to_string()
}

fn profile(id: i32) -> Profile {
    Profile { id, name: format!("User{id}"), language: text("en-US") }
}

fn arrive(s: &mut ServerState, id: i32, session: u128) -> ServerCommand {
    s.welcome(session, profile(id), text("1.1.1.1"), 1000)
}

fn server(ids: &[i32]) -> ServerState {
    let mut s = ServerState::new(ServerConfig::default());
    for &id in ids {
        let _ = arrive(&mut s, id, id as u128);
    }
    s.world.hub.take_effects();
    s
}

fn give(s: &mut ServerState, uid: i32, cmd: ClientCommand) {
    assert!(s.world.can_accept(uid, &cmd));
    let _ = s.world.handle(uid, cmd, &settings(), &texts());
}

fn playing(ids: &[i32]) -> ServerState {
    let mut s = server(ids);
    give(&mut s, ids[0], ClientCommand::CreateRoom { id: room_id("r") });
    for &id in &ids[1..] {
        give(&mut s, id, ClientCommand::JoinRoom { id: room_id("r"), monitor: false });
    }
    s.world.chart_fetched(ids[0], 0, Chart { id: 1, name: text("c") }, false);
    give(&mut s, ids[0], ClientCommand::RequestStart);
    for &id in &ids[1..] {
        give(&mut s, id, ClientCommand::Ready);
    }
    assert_eq!(s.world.rooms.value(0).client_room_state(), RoomState::Playing);
    s.world.hub.take_effects();
    s
}

const SECOND: u128 = 1_000_000_000;

#[test]
fn a_user_has_one_chance_to_tell_who_they_are() {
    let token = || Varchar::<32>::try_from(text("tok")).unwrap();
    let mut link = Link::new();
    assert_eq!(
        link.heed(ClientCommand::Authenticate { token: token() }),
        Heed::Identify(text("tok"))
    );
    assert_eq!(link.heed(ClientCommand::Authenticate { token: token() }), Heed::Drop);
    assert_eq!(link.heed(ClientCommand::Ping), Heed::Pong);
    assert_eq!(link.heed(ClientCommand::Ready), Heed::Drop);
    link.identified(true);
    assert_eq!(link.heed(ClientCommand::Ready), Heed::Process(ClientCommand::Ready));
    link.identified(false);
    assert_eq!(link.heed(ClientCommand::Ping), Heed::Drop);
    let mut late = Link::new();
    assert_eq!(late.heed(ClientCommand::Ping), Heed::Pong);
    assert_eq!(late.heed(ClientCommand::Authenticate { token: token() }), Heed::Drop);
}

#[test]
fn silence_loses_a_connection() {
    assert!(!is_overdue(0, 30 * SECOND - 1));
    assert!(is_overdue(0, 30 * SECOND));
    assert!(!is_overdue(10, 5));
}

#[test]
fn the_black_list_comes_first() {
    let mut s = server(&[]);
    let ip = text("6.6.6.6");
    let good = text("t");
    assert_eq!(s.refuse_token(&ip, false, &good, 0), None);
    assert_eq!(
        s.refuse_token(&ip, false, &"x".repeat(33), 0),
        Some(text("invalid token"))
    );
    assert_eq!(
        s.refuse_token(&ip, true, &good, 0),
        Some(text("该账号已被封禁，无法连接该服务器"))
    );
    s.ip_blacklist.insert(ip.clone(), 5 * SECOND);
    assert!(s.is_blacklisted(&ip, 15 * SECOND - 1));
    assert!(!s.is_blacklisted(&ip, 15 * SECOND));
    assert!(s.refuse_token(&ip, false, &good, 6 * SECOND).is_some());
    s.drop_old_blacklist(14 * SECOND);
    assert_eq!(s.ip_blacklist.len(), 1);
    s.drop_old_blacklist(15 * SECOND);
    assert_eq!(s.ip_blacklist.len(), 0);
}

#[test]
fn users_learn_where_they_are() {
    let mut s = ServerState::new(ServerConfig::default());
    assert_eq!(
        arrive(&mut s, 1, 10),
        ServerCommand::Authenticate(Ok((
            UserInfo { id: 1, name: text("User1"), monitor: false },
            None
        )))
    );
    give(&mut s, 1, ClientCommand::CreateRoom { id: room_id("r") });
    match arrive(&mut s, 1, 11) {
        ServerCommand::Authenticate(Ok((me, Some(room)))) => {
            assert_eq!(me.id, 1);
            assert!(room.is_host);
            assert_eq!(room.id, room_id("r"));
            assert_eq!(room.users.len(), 1);
        }
        other => panic!("{other:?}"),
    }
    let sessions = s.get_sessions_info_from_state();
    assert_eq!(sessions.len(), 2);
    assert_eq!(sessions[0].0, "00000000-0000-0000-0000-00000000000a");
    assert_eq!(sessions[0].1.connect_time, 1000);
}

#[test]
fn losing_an_old_connection_does_no_harm() {
    let mut s = server(&[1]);
    give(&mut s, 1, ClientCommand::CreateRoom { id: room_id("r") });
    let _ = arrive(&mut s, 1, 99);
    assert_eq!(s.lost_user(1), None);
    s.lose(1, None);
    assert_eq!(s.world.hub.users.get(&1).unwrap().dangle_mark, None);
    assert_eq!(s.sessions.len(), 1);
}

#[test]
fn lost_users_are_given_up_unless_they_come_back() {
    let mut s = server(&[1, 3]);
    give(&mut s, 1, ClientCommand::CreateRoom { id: room_id("r") });
    give(&mut s, 3, ClientCommand::JoinRoom { id: room_id("r"), monitor: false });
    s.world.hub.take_effects();
    assert_eq!(s.lost_user(3), Some(3));
    s.lose(3, None);
    let effects = s.world.hub.take_effects();
    assert_eq!(
        effects,
        vec![Effect::GiveUp { user: 3, mark: 0 }, Effect::RoomsChanged, Effect::SessionsChanged]
    );
    assert_eq!(s.world.rooms.value(0).users, vec![1, 3]);
    // Back in time.
    let _ = arrive(&mut s, 3, 33);
    s.world.give_up(3, 0, None);
    assert_eq!(s.world.rooms.value(0).users, vec![1, 3]);
    // Lost again, and for good.
    s.lose(33, None);
    let pick = s.world.choose_successor(3);
    s.world.give_up(3, 1, pick);
    assert_eq!(s.world.rooms.value(0).users, vec![1]);
    assert!(s.world.hub.users.get(&3).is_none());
}

#[test]
fn a_lost_player_leaves_the_game_at_once() {
    let mut s = playing(&[1, 3]);
    assert!(s.world.is_in_game(3));
    let pick = s.world.choose_successor(3);
    s.lose(3, pick);
    assert!(s.world.hub.users.get(&3).is_none());
    assert_eq!(s.world.rooms.value(0).users, vec![1]);
    assert!(s.session_info.get(&3).is_none());
}

#[test]
fn the_list_of_rooms() {
    let mut s = playing(&[1, 3]);
    s.make_room(&text("cup"), true, 7).unwrap();
    let rooms = s.get_rooms_info(9 * SECOND);
    assert_eq!(rooms.len(), 2);
    assert_eq!(rooms[0].id, "r");
    assert_eq!(rooms[0].player_count, 2);
    assert_eq!(rooms[0].state, "游戏中");
    assert_eq!(rooms[0].mode, "普通模式");
    assert_eq!(rooms[0].players, vec!["User1", "User3"]);
    assert_eq!(rooms[0].current_chart.as_ref().unwrap().name, "c");
    assert!(!rooms[0].is_competition);
    assert_eq!(rooms[1].mode, "比赛模式");
    assert_eq!(rooms[1].state, "准备中");
    assert!(rooms[1].is_competition);
    assert_eq!(s.online_rooms.get(&text("cup")).unwrap().mode, "循环模式");
    assert_eq!(s.room_last_activity.get(&text("r")), Some(&(9 * SECOND)));
    let detail = s.world.room_detail(&text("r")).unwrap();
    assert_eq!(detail.players, vec!["User1", "User3"]);
    assert_eq!(s.world.room_detail(&text("none")).unwrap_err().status, 404);
    assert_eq!(s.world.room_detail(&text("a b")).unwrap_err().text, "无效的房间ID格式");
}

#[test]
fn abandoned_rooms_go() {
    let mut s = server(&[1, 9]);
    give(&mut s, 1, ClientCommand::CreateRoom { id: room_id("busy") });
    s.make_room(&text("mine"), false, 0).unwrap();
    s.make_room(&text("idle"), false, 0).unwrap();
    s.admin_created_rooms.remove(&text("idle"));
    s.drop_abandoned(600 * SECOND - 1);
    assert_eq!(s.world.rooms.len(), 3);
    s.drop_abandoned(600 * SECOND);
    let left: Vec<String> =
        s.get_rooms_info_from_state().into_iter().map(|r| r.id).collect();
    assert_eq!(left, vec!["busy", "mine"]);
    assert!(s.room_last_activity.get(&text("idle")).is_none());
}

#[test]
fn stale_sessions_go() {
    let mut s = server(&[1, 3]);
    assert_eq!(s.cut(3), Some(3));
    assert_eq!(s.cut(3), None);
    s.drop_stale_sessions();
    assert_eq!(s.session_info.len(), 1);
    assert!(s.session_info.get(&1).is_some());
}

#[test]
fn rooms_of_administrators() {
    let mut s = server(&[]);
    let status = |r: Result<(), phira_mp::admin::Refused>| {
        let e = r.unwrap_err();
        (e.status, e.text)
    };
    assert_eq!(status(s.make_room(&text(""), false, 0)), (400, text("房间ID不能为空")));
    assert_eq!(status(s.make_room(&text("a b"), false, 0)), (400, text("无效的房间ID格式")));
    s.make_room(&text("a"), false, 5).unwrap();
    assert_eq!(status(s.make_room(&text("a"), true, 0)), (409, text("房间ID已存在")));
    let room = s.world.rooms.value(0);
    assert_eq!(room.host, None);
    assert!(!room.cycle && !room.is_competition);
    s.make_room(&text("b"), true, 5).unwrap();
    let room = s.world.rooms.value(1);
    assert!(room.cycle && room.is_competition && room.live);
}

#[test]
fn deleted_rooms_send_their_people_away() {
    let mut s = server(&[1, 3]);
    give(&mut s, 1, ClientCommand::CreateRoom { id: room_id("r") });
    give(&mut s, 3, ClientCommand::JoinRoom { id: room_id("r"), monitor: false });
    s.world.hub.take_effects();
    assert_eq!(s.delete_room(&text("r")).unwrap(), Some(2));
    assert_eq!(s.world.rooms.len(), 0);
    assert_eq!(s.world.hub.users.get(&1).unwrap().room, None);
    let effects = s.world.hub.take_effects();
    assert!(effects.contains(&Effect::Expel {
        users: vec![1, 3],
        text: text("房间已被管理员删除")
    }));
    assert_eq!(s.delete_room(&text("r")).unwrap_err().status, 404);
    assert_eq!(s.delete_room(&text("")).unwrap_err().text, "房间ID不能为空");
}

#[test]
fn a_competition() {
    let mut s = server(&[1, 3]);
    let cup = text("cup");
    s.make_room(&cup, true, 0).unwrap();
    for id in [1, 3] {
        give(&mut s, id, ClientCommand::JoinRoom { id: room_id("cup"), monitor: false });
    }
    let e = s.request_game(&cup).unwrap_err();
    assert_eq!((e.status, e.text.as_str()), (400, "房间未选择谱面，无法开始游戏"));
    let h = s.world.find_named_room(&cup).unwrap();
    s.world.choose_system_chart(h, unnamed_chart(12));
    assert_eq!(s.world.rooms.value(0).chart.as_ref().unwrap().name, "Chart_12");
    assert_eq!(s.request_game(&cup).unwrap(), (h, true));
    assert_eq!(s.world.rooms.value(0).client_room_state(), RoomState::WaitingForReady);
    assert_eq!(s.world.tick(h, Countdown::Waiting), Countdown::Waiting);
    give(&mut s, 1, ClientCommand::Ready);
    assert_eq!(s.world.tick(h, Countdown::Waiting), Countdown::Waiting);
    give(&mut s, 3, ClientCommand::Ready);
    // Everybody being ready begins the game at once; the count-down is for rooms that still
    // wait.
    assert_eq!(s.world.rooms.value(0).client_room_state(), RoomState::Playing);
    assert_eq!(s.world.tick(h, Countdown::Waiting), Countdown::Waiting);
}

#[test]
fn counting_down() {
    let mut s = server(&[1]);
    let cup = text("cup");
    s.make_room(&cup, true, 0).unwrap();
    give(&mut s, 1, ClientCommand::JoinRoom { id: room_id("cup"), monitor: false });
    s.world.hub.take_effects();
    let mut c = Countdown::Counting(COUNTDOWN_SECONDS);
    let mut said = Vec::new();
    while c != Countdown::Done {
        c = s.world.tick(0, c);
        for e in s.world.hub.take_effects() {
            if let Effect::Send { cmd: ServerCommand::Message(Message::Chat { content, .. }), .. } = e {
                said.push(content);
            }
        }
    }
    assert_eq!(said.len(), 9);
    assert_eq!(said[0], "游戏将在9秒后开始");
    assert_eq!(said[8], "游戏将在1秒后开始");
    assert_eq!(s.world.rooms.value(0).client_room_state(), RoomState::Playing);
    assert_eq!(s.world.tick(0, Countdown::Done), Countdown::Done);
    assert_eq!(s.world.tick(55, Countdown::Waiting), Countdown::Done);
}

#[test]
fn the_system_takes_over_a_room() {
    let mut s = server(&[1]);
    give(&mut s, 1, ClientCommand::CreateRoom { id: room_id("r") });
    s.world.hub.take_effects();
    s.world.switch_to_competition(&text("r")).unwrap();
    assert!(s.world.rooms.value(0).cycle);
    let effects = s.world.hub.take_effects();
    assert_eq!(
        effects[1],
        Effect::Send {
            to: vec![1],
            cmd: ServerCommand::Message(Message::NewHost { user: 0 })
        }
    );
    assert_eq!(s.world.switch_to_competition(&text("x")).unwrap_err().status, 404);
}

#[test]
fn messages_to_everybody() {
    let mut s = server(&[1, 3]);
    give(&mut s, 1, ClientCommand::CreateRoom { id: room_id("a") });
    give(&mut s, 3, ClientCommand::CreateRoom { id: room_id("b") });
    s.world.hub.take_effects();
    assert_eq!(s.world.tell_all("hello"), (2, 2));
    assert_eq!(s.world.hub.take_effects().len(), 2);
    assert_eq!(s.world.message_room(&text("a"), &text("hey")).unwrap(), 1);
    let effects = s.world.hub.take_effects();
    assert_eq!(effects.len(), 2);
    assert!(format!("{:?}", effects[1]).contains("[系统广播] hey"));
    assert_eq!(s.world.message_room(&text("a"), &text("")).unwrap_err().text, "消息内容不能为空");
    assert_eq!(
        inspection_message(None),
        "巡查广播：专家巡查员正在实时巡查本场竞赛，请文明游戏！"
    );
    assert_eq!(inspection_message(Some(text("x"))), "x");
    assert_eq!(group_message("g", "m").unwrap(), "来自QQ群[g]的消息：m");
    assert_eq!(group_message("g", "").unwrap_err().status, 400);
}

#[test]
fn making_a_room_live() {
    let mut s = server(&[1, 2]);
    give(&mut s, 1, ClientCommand::CreateRoom { id: room_id("r") });
    let e = s.world.set_live(&text("r")).unwrap_err();
    assert_eq!((e.status, e.text.as_str()), (403, "只有比赛房间可以启用Live模式"));
    s.make_room(&text("cup"), true, 0).unwrap();
    assert!(s.world.set_live(&text("cup")).unwrap());
    let h = s.world.find_room(&text("cup")).unwrap();
    s.world.rooms.get_mut(&h).unwrap().live = false;
    assert!(!s.world.set_live(&text("cup")).unwrap());
    let room = s.world.rooms.get(&h).unwrap();
    assert!(room.live);
    assert_eq!(room.monitors, vec![2]);
}

#[test]
fn players_are_found_by_name() {
    let s = playing(&[1, 3]);
    let p = s.world.find_player("uSER3").unwrap();
    assert_eq!((p.id, p.name.as_str(), p.room_id.as_str()), (3, "User3", "r"));
    assert_eq!(p.state, "playing");
    assert_eq!(p.stats.score, 0);
    assert!(s.world.find_player("nobody").is_none());
    assert_eq!(s.world.find_players("USER1").len(), 1);
    assert_eq!(s.world.players_with_lower_name("USER1").len(), 0);
    assert_eq!(s.world.room_stats(0).len(), 0);
}

#[test]
fn watching_a_room_needs_a_token() {
    let s = playing(&[1]);
    let token = "0".repeat(32);
    assert_eq!(s.world.watch_room(&token, &text("r")), Ok(0));
    let e = s.world.watch_room("short", &text("r")).unwrap_err();
    assert_eq!((e.status, e.text.as_str()), (401, "未授权"));
    assert_eq!(s.world.watch_room(&token, &text("x")).unwrap_err().status, 404);
}

#[test]
fn only_news_is_published() {
    assert!(is_news(&None, ""));
    assert!(!is_news(&Some(text("a")), "a"));
    assert!(is_news(&Some(text("a")), "b"));
}

#[test]
fn bans_end_sessions() {
    let mut s = server(&[1, 3]);
    let _ = s.welcome(77, profile(1), text("7.7.7.7"), 0);
    let mut req = BanRequest {
        user_id: Some(1),
        user_name: None,
        ip_address: Some(text("1.1.1.1")),
        ban_reason: text("r"),
        ban_duration: 10,
        banned_by: text("a"),
        ban_type: text("user"),
    };
    assert_eq!(s.find_sessions(Some(1), &None), vec![1, 77]);
    assert_eq!(s.ban(req, 0).unwrap(), vec![1, 77]);
    req = BanRequest {
        user_id: Some(1),
        user_name: None,
        ip_address: Some(text("1.1.1.1")),
        ban_reason: text("r"),
        ban_duration: 10,
        banned_by: text("a"),
        ban_type: text("user_and_ip"),
    };
    let ids = s.ban(req, 0).unwrap();
    assert_eq!(ids, vec![1, 3, 77]);
    for &id in &ids {
        assert!(s.cut(id).is_some());
    }
    s.forget_sessions(&ids);
    assert_eq!(s.session_info.len(), 0);
}

#[test]
fn maintenance_ends_the_sessions_of_outsiders() {
    let mut s = server(&[1, 3, 4, 5]);
    let _ = arrive(&mut s, 3, 30);
    assert!(s.cut(5).is_some());
    s.set_whitelist("4");
    assert_eq!(s.begin_maintenance(true), vec![1, 3, 30]);
    assert!(s.maintenance_mode);
    assert_eq!(s.maintenance_whitelist, vec![4]);
    assert_eq!(s.begin_maintenance(false), Vec::<u128>::new());
    assert!(!s.maintenance_mode);
}

#[test]
fn users_are_asked_for_by_the_low_bits() {
    for id in [0, 1, -1, 7, i32::MAX, i32::MIN] {
        assert_eq!(asked_user(Some(id as i64)).unwrap(), id);
    }
    assert_eq!(asked_user(Some(0x8000_0000)).unwrap(), i32::MIN);
    assert_eq!(asked_user(Some(0xffff_ffff)).unwrap(), -1);
    assert_eq!(asked_user(Some(0x1_0000_0005)).unwrap(), 5);
    assert_eq!(asked_user(Some(i64::MIN)).unwrap(), 0);
    assert_eq!(asked_user(Some(i64::MAX)).unwrap(), -1);
    let refusal = asked_user(None).unwrap_err();
    assert_eq!((refusal.status, refusal.text.as_str()), (400, "缺少user_id"));
}

#[test]
fn sessions_are_listed_under_hyphenated_numbers() {
    let mut s = server(&[]);
    let _ = arrive(&mut s, 1, 0x0123_4567_89ab_cdef_fedc_ba98_7654_3210);
    let _ = arrive(&mut s, 2, u128::MAX);
    let sessions = s.get_sessions_info_from_state();
    assert_eq!(sessions[0].0, "01234567-89ab-cdef-fedc-ba9876543210");
    assert_eq!(sessions[1].0, "ffffffff-ffff-ffff-ffff-ffffffffffff");
}

#[test]
fn texts_for_those_who_are_sent_away() {
    assert_eq!(
        ban_message("T", "R"),
        "由于您的账号存在违规行为，账号已被封禁，如有疑问请联系客服。\n封禁结束时间【T】\n封禁理由：【R】"
    );
    assert_eq!(kick_message("R", "T"), "该账号已被封禁，封禁理由: R，封禁结束时间: T");
    assert!(maintenance_message().starts_with("当前服务器正在维护"));
    assert_eq!(disconnection_answer(7, 2).unwrap(), "已断开用户ID 7 的 2 个连接");
    assert_eq!(disconnection_answer(7, 0).unwrap_err().text, "未找到匹配用户ID的会话");
    assert_eq!(live_answer(true), "房间已经是live状态");
    assert_eq!(live_answer(false), "房间已设置为live状态");
    assert_eq!(maintenance_answer(true, 3), "维护模式已开启，已断开 3 个非白名单用户的连接");
    assert_eq!(maintenance_answer(false, 0), "维护模式已关闭，已断开 0 个非白名单用户的连接");
}

#[test]
fn shared_charts_by_the_web() {
    let mut s = server(&[]);
    assert_eq!(s.world.fetch_chart(&text("i")).unwrap_err().text, "chart not found");
    s.world.store_chart(text("i"), vec![4, 5]);
    assert_eq!(s.world.fetch_chart(&text("i")).unwrap(), &vec![4, 5]);
}

#[test]
fn setups() {
    let c = ServerConfig::default();
    assert_eq!(c.monitors, vec![2]);
    assert_eq!(c.web_port, None);
    assert!(!c.upload.is_active());
    let u = UploadConfig { enabled: true, api_url: text("u"), api_token: text("t") };
    assert!(u.is_active());
    let mut s = ServerState::new(c);
    assert!(!s.note_public_ip(" \n"));
    assert!(s.note_public_ip(" 1.2.3.4\n"));
    assert_eq!(s.public_ip, "1.2.3.4");
    let id = s.try_new_id().unwrap();
    assert!(s.is_vacant(id));
    assert_ne!(s.try_new_id(), s.try_new_id());
    assert_eq!(s.claim(5), Some(5));
    let p = Profile { id: 1, name: text("a"), language: text("zh-CN") };
    let _ = s.welcome(5, p, text("1.1.1.1"), 0);
    assert_eq!(s.claim(5), None);
    assert_eq!(s.claim(6), Some(6));
}
