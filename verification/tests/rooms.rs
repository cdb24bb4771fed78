use phira_mp::command::{
    ClientCommand, JudgeEvent, Judgement, Message, RoomId, RoomState, ServerCommand, TouchFrame,
    Varchar,
};
use phira_mp::hub::{Chart, Effect, LogText, Record};
use phira_mp::presence::Profile;
use phira_mp::replay::RECORDER_BOT_USER_ID;
use phira_mp::room::{InternalRoomState, Room};
use phira_mp::server::{ServerConfig, ServerState};
use phira_mp::session::{Fetch, Settings, Step, Texts};
use phira_mp::world::World;
use std::sync::Arc;

fn texts() -> Texts {
    Texts {
        create_id_occupied: "occupied".to_string(),
        join_room_locked: "locked".to_string(),
        join_game_ongoing: "ongoing".to_string(),
        join_cant_monitor: "cant monitor".to_string(),
        join_room_full: "full".to_string(),
        start_no_chart_selected: "no chart".to_string(),
        chart_select_not_now: "not now".to_string(),
        chart_not_uploaded_yet: "not uploaded".to_string(),
    }
}

fn settings() -> Settings {
    Settings { monitors: vec![2, 9], web_port: Some(12347), public_ip: "5.6.7.8".to_string() }
}

fn room_id(s: &str) -> RoomId {
    RoomId::try_from(s.to_string()).unwrap()
}

/// A world with some users in it, each with a connection.
fn world(ids: &[i32]) -> World {
    let mut s = ServerState::new(ServerConfig::default());
    for &id in ids {
        let p = Profile { id, name: format!("u{id}"), language: "zh-CN".to_string() };
        let _ = s.welcome(id as u128, p, "1.1.1.1".to_string(), 0);
    }
    s.world
}

fn give(w: &mut World, uid: i32, cmd: ClientCommand) -> Step {
    assert!(w.can_accept(uid, &cmd));
    let pick = w.successors(uid).first().copied();
    w.process(uid, cmd, &settings(), &texts(), pick)
}

fn reply(w: &mut World, uid: i32, cmd: ClientCommand) -> ServerCommand {
    match give(w, uid, cmd) {
        Step::Reply(Some(cmd)) => cmd,
        other => panic!("{other:?}"),
    }
}

fn room(w: &World) -> &Room {
    w.rooms.value(0)
}

fn create(w: &mut World, uid: i32, id: &str) {
    assert_eq!(
        reply(w, uid, ClientCommand::CreateRoom { id: room_id(id) }),
        ServerCommand::CreateRoom(Ok(()))
    );
}

fn join(w: &mut World, uid: i32, id: &str) {
    let r = reply(w, uid, ClientCommand::JoinRoom { id: room_id(id), monitor: false });
    assert!(matches!(r, ServerCommand::JoinRoom(Ok(_))), "{r:?}");
}

fn with_chart(w: &mut World, uid: i32) {
    match give(w, uid, ClientCommand::SelectChart { id: 77 }) {
        Step::Fetch(Fetch::Chart { room, id: 77, online: false }) => {
            w.chart_fetched(uid, room, Chart { id: 77, name: "song".to_string() }, false)
        }
        other => panic!("{other:?}"),
    }
}

/// The commands that a user gets out of the effects.
fn heard(effects: &[Effect], uid: i32) -> Vec<String> {
    effects
        .iter()
        .filter_map(|e| match e {
            Effect::Send { to, cmd } if to.contains(&uid) => Some(format!("{cmd:?}")),
            _ => None,
        })
        .collect()
}

fn record(id: i32, player: i32) -> Record {
    Record {
        id,
        player,
        score: 1_000_000,
        perfect: 10,
        good: 0,
        bad: 0,
        miss: 0,
        max_combo: 10,
        accuracy: 1.0f32.to_bits(),
        full_combo: true,
        std: 0,
        std_score: 0,
    }
}

#[test]
fn rooms_are_made_once() {
    let mut w = world(&[1, 3]);
    create(&mut w, 1, "r");
    assert_eq!(room(&w).host, Some(1));
    assert_eq!(room(&w).users, vec![1]);
    assert_eq!(
        reply(&mut w, 3, ClientCommand::CreateRoom { id: room_id("r") }),
        ServerCommand::CreateRoom(Err("occupied".to_string()))
    );
    assert_eq!(
        reply(&mut w, 1, ClientCommand::CreateRoom { id: room_id("s") }),
        ServerCommand::CreateRoom(Err("already in room".to_string()))
    );
    let effects = w.hub.take_effects();
    assert!(effects.contains(&Effect::RoomsChanged));
    assert!(effects.contains(&Effect::WatchersJoin { room: 0, creator: 1 }));
}

#[test]
fn joining_tells_everybody() {
    let mut w = world(&[1, 3]);
    create(&mut w, 1, "r");
    w.hub.take_effects();
    join(&mut w, 3, "r");
    assert_eq!(room(&w).users, vec![1, 3]);
    let effects = w.hub.take_effects();
    let got = heard(&effects, 1);
    assert!(got[0].contains("OnJoinRoom"));
    assert!(got[1].contains("欢迎 u3 加入房间！"));
    assert!(got[2].contains("JoinRoom"));
    assert!(effects.iter().any(|e| matches!(
        e,
        Effect::Log { text: LogText::Plain(s), .. } if s == "加入房间：u3 (3)"
    )));
}

#[test]
fn reasons_not_to_join() {
    let mut w = world(&[1, 3, 4]);
    let ask = |w: &mut World, uid, id: &str, monitor| {
        match reply(w, uid, ClientCommand::JoinRoom { id: room_id(id), monitor }) {
            ServerCommand::JoinRoom(Err(e)) => e,
            other => panic!("{other:?}"),
        }
    };
    assert_eq!(ask(&mut w, 3, "r", false), "芙宁娜都还没开房间呢，这么着急干啥？");
    create(&mut w, 1, "r");
    assert_eq!(ask(&mut w, 1, "r", false), "already in room");
    assert_eq!(ask(&mut w, 3, "r", true), "cant monitor");
    assert_eq!(
        reply(&mut w, 1, ClientCommand::LockRoom { lock: true }),
        ServerCommand::LockRoom(Ok(()))
    );
    assert_eq!(ask(&mut w, 3, "r", false), "locked");
    assert_eq!(
        reply(&mut w, 1, ClientCommand::LockRoom { lock: false }),
        ServerCommand::LockRoom(Ok(()))
    );
    with_chart(&mut w, 1);
    let _ = reply(&mut w, 1, ClientCommand::RequestStart);
    assert_eq!(ask(&mut w, 3, "r", false), "ongoing");
}

#[test]
fn watchers_make_a_room_live() {
    let mut w = world(&[1, 9]);
    create(&mut w, 1, "r");
    let r = reply(&mut w, 9, ClientCommand::JoinRoom { id: room_id("r"), monitor: true });
    assert!(matches!(r, ServerCommand::JoinRoom(Ok(ref j)) if j.live));
    assert_eq!(room(&w).users, vec![1]);
    assert_eq!(room(&w).monitors, vec![9]);
}

#[test]
fn only_the_host_decides() {
    let mut w = world(&[1, 3]);
    create(&mut w, 1, "r");
    join(&mut w, 3, "r");
    for cmd in [
        ClientCommand::LockRoom { lock: true },
        ClientCommand::CycleRoom { cycle: true },
        ClientCommand::RequestStart,
        ClientCommand::SelectChart { id: 1 },
    ] {
        let r = format!("{:?}", reply(&mut w, 3, cmd));
        assert!(r.contains("Err"), "{r}");
    }
    assert!(!room(&w).locked);
}

#[test]
fn a_whole_game() {
    let mut w = world(&[1, 3]);
    create(&mut w, 1, "r");
    join(&mut w, 3, "r");
    assert_eq!(
        reply(&mut w, 1, ClientCommand::RequestStart),
        ServerCommand::RequestStart(Err("no chart".to_string()))
    );
    with_chart(&mut w, 1);
    assert_eq!(room(&w).client_room_state(), RoomState::SelectChart(Some(77)));
    assert_eq!(
        reply(&mut w, 1, ClientCommand::RequestStart),
        ServerCommand::RequestStart(Ok(()))
    );
    assert_eq!(room(&w).client_room_state(), RoomState::WaitingForReady);
    w.hub.take_effects();
    assert_eq!(reply(&mut w, 3, ClientCommand::Ready), ServerCommand::Ready(Ok(())));
    assert_eq!(room(&w).client_room_state(), RoomState::Playing);
    let got = heard(&w.hub.take_effects(), 1);
    assert!(got.iter().any(|s| s.contains("StartPlaying")));
    assert_eq!(got.last().unwrap(), "ChangeState(Playing)");
    // One player hits notes.
    let judges: Vec<JudgeEvent> = vec![
        JudgeEvent { time: 0, line_id: 0, note_id: 0, judgement: Judgement::Perfect },
        JudgeEvent { time: 0, line_id: 0, note_id: 1, judgement: Judgement::Good },
    ];
    assert_eq!(
        give(&mut w, 3, ClientCommand::Judges { judges: Arc::new(judges) }),
        Step::Reply(None)
    );
    let stats = room(&w).stats_list();
    assert_eq!(stats.len(), 1);
    assert_eq!((stats[0].user_id, stats[0].score, stats[0].max_combo), (3, 150, 2));
    // Results come in.
    let h = match give(&mut w, 3, ClientCommand::Played { id: 5 }) {
        Step::Fetch(Fetch::Record { room, id: 5 }) => room,
        other => panic!("{other:?}"),
    };
    assert_eq!(w.record_fetched(3, h, record(5, 1)), Err("invalid record".to_string()));
    assert_eq!(w.record_fetched(3, h, record(5, 3)), Ok(()));
    assert_eq!(w.record_fetched(3, h, record(5, 3)), Err("already uploaded".to_string()));
    w.hub.take_effects();
    assert_eq!(reply(&mut w, 1, ClientCommand::Abort), ServerCommand::Abort(Ok(())));
    let effects = w.hub.take_effects();
    assert!(heard(&effects, 1).iter().any(|s| s.contains("GameEnd")));
    assert_eq!(room(&w).client_room_state(), RoomState::SelectChart(Some(77)));
    assert_eq!(room(&w).host, Some(1));
}

#[test]
fn the_last_result_has_replays_saved() {
    let mut w = world(&[1]);
    create(&mut w, 1, "r");
    with_chart(&mut w, 1);
    let _ = reply(&mut w, 1, ClientCommand::RequestStart);
    assert_eq!(room(&w).client_room_state(), RoomState::Playing);
    w.hub.take_effects();
    assert_eq!(w.record_fetched(1, 0, record(8, 1)), Ok(()));
    let effects = w.hub.take_effects();
    assert_eq!(effects.last(), Some(&Effect::SaveReplays { room: room_id("r") }));
    assert!(effects.iter().any(|e| matches!(
        e,
        Effect::Log { text: LogText::Played { head, accuracy, tail }, .. }
            if head == "完成：u1 分数=1000000 准确率="
                && *accuracy == 1.0f32.to_bits()
                && tail == "% 全连=true "
    )));
}

#[test]
fn hosts_take_turns() {
    let mut w = world(&[1, 3, 4]);
    create(&mut w, 1, "r");
    join(&mut w, 3, "r");
    join(&mut w, 4, "r");
    assert_eq!(
        reply(&mut w, 1, ClientCommand::CycleRoom { cycle: true }),
        ServerCommand::CycleRoom(Ok(()))
    );
    let mut host = 1;
    for next in [3, 4, 1, 3] {
        with_chart(&mut w, host);
        let _ = reply(&mut w, host, ClientCommand::RequestStart);
        for uid in [1, 3, 4] {
            if uid != host {
                let _ = reply(&mut w, uid, ClientCommand::Ready);
            }
        }
        w.hub.take_effects();
        for uid in [1, 3, 4] {
            let _ = reply(&mut w, uid, ClientCommand::Abort);
        }
        assert_eq!(room(&w).host, Some(next));
        let effects = w.hub.take_effects();
        assert!(heard(&effects, next).contains(&"ChangeHost(true)".to_string()));
        assert!(heard(&effects, host).contains(&"ChangeHost(false)".to_string()));
        host = next;
    }
}

#[test]
fn readiness_can_be_taken_back() {
    let mut w = world(&[1, 3, 4]);
    create(&mut w, 1, "r");
    join(&mut w, 3, "r");
    join(&mut w, 4, "r");
    with_chart(&mut w, 1);
    let _ = reply(&mut w, 1, ClientCommand::RequestStart);
    assert_eq!(reply(&mut w, 3, ClientCommand::Ready), ServerCommand::Ready(Ok(())));
    assert_eq!(
        reply(&mut w, 3, ClientCommand::Ready),
        ServerCommand::Ready(Err("already ready".to_string()))
    );
    assert_eq!(reply(&mut w, 3, ClientCommand::CancelReady), ServerCommand::CancelReady(Ok(())));
    assert_eq!(
        reply(&mut w, 3, ClientCommand::CancelReady),
        ServerCommand::CancelReady(Err("not ready".to_string()))
    );
    assert_eq!(room(&w).client_room_state(), RoomState::WaitingForReady);
    // The host calls the game off.
    assert_eq!(reply(&mut w, 1, ClientCommand::CancelReady), ServerCommand::CancelReady(Ok(())));
    assert_eq!(room(&w).client_room_state(), RoomState::SelectChart(Some(77)));
}

#[test]
fn leaving_passes_the_room_on() {
    let mut w = world(&[1, 3]);
    create(&mut w, 1, "r");
    join(&mut w, 3, "r");
    w.hub.take_effects();
    assert_eq!(reply(&mut w, 1, ClientCommand::LeaveRoom), ServerCommand::LeaveRoom(Ok(())));
    assert_eq!(room(&w).host, Some(3));
    assert_eq!(room(&w).users, vec![3]);
    let got = heard(&w.hub.take_effects(), 3);
    assert!(got.contains(&"ChangeHost(true)".to_string()));
    assert_eq!(reply(&mut w, 3, ClientCommand::LeaveRoom), ServerCommand::LeaveRoom(Ok(())));
    assert_eq!(w.rooms.len(), 0);
    assert_eq!(
        reply(&mut w, 3, ClientCommand::LeaveRoom),
        ServerCommand::LeaveRoom(Err("芙宁娜的房间已经关了".to_string()))
    );
}

#[test]
fn chance_picks_one_of_the_others() {
    for _ in 0..20 {
        let mut w = world(&[1, 3, 4]);
        create(&mut w, 1, "r");
        join(&mut w, 3, "r");
        join(&mut w, 4, "r");
        assert_eq!(
            w.handle(1, ClientCommand::LeaveRoom, &settings(), &texts()),
            Step::Reply(Some(ServerCommand::LeaveRoom(Ok(()))))
        );
        assert!(matches!(room(&w).host, Some(3) | Some(4)));
    }
}

#[test]
fn a_leaving_host_breaks_off_the_game() {
    let mut w = world(&[1, 3]);
    create(&mut w, 1, "r");
    join(&mut w, 3, "r");
    with_chart(&mut w, 1);
    let _ = reply(&mut w, 1, ClientCommand::RequestStart);
    let _ = reply(&mut w, 3, ClientCommand::Ready);
    assert!(matches!(room(&w).state, InternalRoomState::Playing { .. }));
    let _ = reply(&mut w, 1, ClientCommand::LeaveRoom);
    assert!(matches!(room(&w).state, InternalRoomState::SelectChart));
}

#[test]
fn who_leaves_was_the_last_to_wait_for() {
    let mut w = world(&[1, 3, 4]);
    create(&mut w, 1, "r");
    join(&mut w, 3, "r");
    join(&mut w, 4, "r");
    with_chart(&mut w, 1);
    let _ = reply(&mut w, 1, ClientCommand::RequestStart);
    let _ = reply(&mut w, 3, ClientCommand::Ready);
    assert_eq!(room(&w).client_room_state(), RoomState::WaitingForReady);
    let _ = reply(&mut w, 4, ClientCommand::LeaveRoom);
    assert_eq!(room(&w).client_room_state(), RoomState::Playing);
}

#[test]
fn sharing_a_chart() {
    let mut w = world(&[1, 3]);
    create(&mut w, 1, "r");
    join(&mut w, 3, "r");
    let id = || Varchar::<40>::try_from("uuid".to_string()).unwrap();
    assert_eq!(
        reply(
            &mut w,
            1,
            ClientCommand::SelectLocalChart {
                id: id(),
                name: Varchar::try_from("mine".to_string()).unwrap()
            }
        ),
        ServerCommand::SelectLocalChart(Ok(()))
    );
    assert_eq!(room(&w).client_room_state(), RoomState::LocalChart);
    assert_eq!(
        reply(&mut w, 3, ClientCommand::DownloadReady),
        ServerCommand::DownloadReady(Err("not uploaded".to_string()))
    );
    assert_eq!(
        reply(&mut w, 3, ClientCommand::DownloadChart { id: id() }),
        ServerCommand::DownloadChart(Err("chart not found: uuid".to_string()))
    );
    assert_eq!(
        reply(&mut w, 1, ClientCommand::UploadChart { id: id(), data: vec![1, 2, 3] }),
        ServerCommand::UploadChart(Ok(()))
    );
    w.hub.take_effects();
    assert_eq!(
        reply(&mut w, 1, ClientCommand::SendChart { addr: "x".to_string(), port: 1 }),
        ServerCommand::SendChart(Ok(()))
    );
    let got = heard(&w.hub.take_effects(), 3);
    assert!(got.iter().any(|s| s.contains("StartDownload") && s.contains("5.6.7.8")));
    assert_eq!(
        reply(&mut w, 3, ClientCommand::DownloadChart { id: id() }),
        ServerCommand::DownloadChart(Ok(vec![1, 2, 3]))
    );
    assert_eq!(
        reply(&mut w, 3, ClientCommand::DownloadReady),
        ServerCommand::DownloadReady(Ok(()))
    );
    assert_eq!(room(&w).client_room_state(), RoomState::Playing);
    assert_eq!(w.hub.chart_cache.len(), 0);
    assert!(heard(&w.hub.take_effects(), 1).contains(&"HostReady".to_string()));
}

#[test]
fn sharing_can_be_called_off() {
    let mut w = world(&[1, 3]);
    create(&mut w, 1, "r");
    join(&mut w, 3, "r");
    let id = || Varchar::<40>::try_from("uuid".to_string()).unwrap();
    let name = Varchar::try_from("mine".to_string()).unwrap();
    let _ = reply(&mut w, 1, ClientCommand::SelectLocalChart { id: id(), name });
    let _ = reply(&mut w, 1, ClientCommand::UploadChart { id: id(), data: vec![1] });
    assert_eq!(
        reply(&mut w, 1, ClientCommand::CancelLocalChart),
        ServerCommand::CancelLocalChart(Ok(()))
    );
    assert_eq!(w.hub.chart_cache.len(), 0);
    assert!(!room(&w).chart_uploaded);
    match give(&mut w, 1, ClientCommand::SelectOnlineChart { id: 6 }) {
        Step::Fetch(Fetch::Chart { room, id: 6, online: true }) => {
            w.chart_fetched(1, room, Chart { id: 6, name: "six".to_string() }, true)
        }
        other => panic!("{other:?}"),
    }
    assert_eq!(room(&w).client_room_state(), RoomState::SelectChart(Some(6)));
    assert!(room(&w).local_chart.is_none());
}

#[test]
fn touches_reach_the_watchers() {
    let mut w = world(&[1, 9]);
    create(&mut w, 1, "r");
    let _ = reply(&mut w, 9, ClientCommand::JoinRoom { id: room_id("r"), monitor: true });
    w.hub.take_effects();
    let frames = Arc::new(vec![TouchFrame { time: 2.0f32.to_bits(), points: vec![] }]);
    assert_eq!(give(&mut w, 1, ClientCommand::Touches { frames }), Step::Reply(None));
    assert_eq!(w.hub.users.get(&1).unwrap().game_time, 2.0f32.to_bits());
    let effects = w.hub.take_effects();
    assert!(heard(&effects, 9).iter().any(|s| s.contains("Touches")));
    assert!(heard(&effects, 1).is_empty());
    let m = w.replay_manager.get_room_manager(&"r".to_string()).unwrap();
    assert_eq!(m.record_of(1, 0, 0).unwrap().touch_frames.len(), 1);
}

#[test]
fn chat_is_sent_and_logged() {
    let mut w = world(&[1]);
    let say = || ClientCommand::Chat { message: Varchar::try_from("hi".to_string()).unwrap() };
    assert_eq!(
        reply(&mut w, 1, say()),
        ServerCommand::Chat(Err("芙宁娜的房间已经关了".to_string()))
    );
    create(&mut w, 1, "r");
    w.hub.take_effects();
    assert_eq!(reply(&mut w, 1, say()), ServerCommand::Chat(Ok(())));
    assert_eq!(
        w.hub.take_effects(),
        vec![
            Effect::Log {
                room: room_id("r"),
                text: LogText::Plain("聊天：u1 — hi".to_string())
            },
            Effect::Send {
                to: vec![1],
                cmd: ServerCommand::Message(Message::Chat { user: 1, content: "hi".to_string() })
            },
        ]
    );
}

#[test]
fn those_who_watch_every_room() {
    let mut w = world(&[1]);
    create(&mut w, 1, "r");
    w.watchers_join(0, 1);
    assert_eq!(room(&w).monitors, vec![RECORDER_BOT_USER_ID]);
    with_chart(&mut w, 1);
    let _ = reply(&mut w, 1, ClientCommand::RequestStart);
    assert_eq!(room(&w).client_room_state(), RoomState::WaitingForReady);
    w.watchers_ready(0);
    assert_eq!(room(&w).client_room_state(), RoomState::Playing);
}

#[test]
fn pings_are_answered() {
    let mut w = world(&[1]);
    assert_eq!(reply(&mut w, 1, ClientCommand::Ping), ServerCommand::Pong);
}

fn everybody_is_in_place(w: &World) -> bool {
    (0..w.hub.users.len()).all(|i| {
        let user = w.hub.users.value(i);
        match user.room {
            Some(h) => w
                .rooms
                .get(&h)
                .is_some_and(|r| r.users.contains(&user.id) || r.monitors.contains(&user.id)),
            None => true,
        }
    })
}

#[test]
fn whoever_is_in_a_room_is_among_its_people() {
    let mut w = world(&[1, 3, 9]);
    create(&mut w, 1, "r");
    assert!(everybody_is_in_place(&w));
    join(&mut w, 3, "r");
    let r = reply(&mut w, 9, ClientCommand::JoinRoom { id: room_id("r"), monitor: true });
    assert!(matches!(r, ServerCommand::JoinRoom(Ok(_))));
    assert!(everybody_is_in_place(&w));
    assert_eq!(room(&w).users, vec![1, 3]);
    assert_eq!(room(&w).monitors, vec![9]);
    assert_eq!(reply(&mut w, 1, ClientCommand::LeaveRoom), ServerCommand::LeaveRoom(Ok(())));
    assert!(everybody_is_in_place(&w));
    assert_eq!(w.hub.users.get(&1).unwrap().room, None);
    assert_eq!(w.hub.users.get(&3).unwrap().room, Some(0));
    assert_eq!(reply(&mut w, 9, ClientCommand::LeaveRoom), ServerCommand::LeaveRoom(Ok(())));
    create(&mut w, 9, "s");
    assert!(everybody_is_in_place(&w));
    assert_eq!(w.hub.users.get(&9).unwrap().room, Some(1));
}

#[test]
fn a_batch_counts_as_its_notes_do() {
    let notes = [
        Judgement::Perfect,
        Judgement::Good,
        Judgement::HoldGood,
        Judgement::Miss,
        Judgement::Perfect,
        Judgement::Bad,
    ];
    let events: Vec<JudgeEvent> = notes
        .iter()
        .enumerate()
        .map(|(i, &judgement)| JudgeEvent { time: 0, line_id: 0, note_id: i as i32, judgement })
        .collect();
    let mut a = world(&[1]);
    let mut b = world(&[1]);
    create(&mut a, 1, "r");
    create(&mut b, 1, "r");
    a.hub.take_effects();
    let room = a.rooms.get_mut(&0).unwrap();
    room.update_judgement_stats_batch(&mut a.hub, 1, "u1".to_string(), &vec![]);
    assert_eq!(a.hub.take_effects(), vec![]);
    let room = a.rooms.get_mut(&0).unwrap();
    room.update_judgement_stats_batch(&mut a.hub, 1, "u1".to_string(), &events);
    assert_eq!(a.hub.take_effects().len(), 1);
    for e in &events {
        let room = b.rooms.get_mut(&0).unwrap();
        room.update_judgement_stats(&mut b.hub, 1, "u1".to_string(), e);
    }
    let (x, y) = (a.rooms.get(&0).unwrap(), b.rooms.get(&0).unwrap());
    assert_eq!(x.judgement_stats, y.judgement_stats);
    assert_eq!(x.judge_events, y.judge_events);
    let s = x.judgement_stats.get(&1).unwrap();
    assert_eq!((s.perfect, s.good, s.bad, s.miss, s.hold_good), (2, 1, 1, 1, 1));
    assert_eq!((s.score, s.max_combo, s.current_combo), (310, 2, 0));
}

#[test]
fn what_was_fetched_is_answered() {
    let mut w = world(&[1]);
    create(&mut w, 1, "r");
    let chart = || Ok(Chart { id: 3, name: "c".to_string() });
    assert_eq!(w.answer_chart(1, 0, chart(), false), ServerCommand::SelectChart(Ok(())));
    assert_eq!(w.answer_chart(1, 0, chart(), true), ServerCommand::SelectOnlineChart(Ok(())));
    assert_eq!(room(&w).chart.as_ref().unwrap().id, 3);
    assert_eq!(
        w.answer_chart(1, 0, Err("no".to_string()), true),
        ServerCommand::SelectOnlineChart(Err("no".to_string()))
    );
    assert_eq!(
        w.answer_record(1, 0, Err("no".to_string())),
        ServerCommand::Played(Err("no".to_string()))
    );
    assert_eq!(
        w.answer_record(1, 0, Ok(record(5, 2))),
        ServerCommand::Played(Err("invalid record".to_string()))
    );
    assert_eq!(w.answer_record(1, 0, Ok(record(5, 1))), ServerCommand::Played(Ok(())));
}

#[test]
fn a_room_is_not_left_without_a_host() {
    let mut w = world(&[1]);
    create(&mut w, 1, "r");
    let room = w.rooms.get_mut(&0).unwrap();
    room.users.clear();
    room.cycle = true;
    room.state = InternalRoomState::fresh_game();
    assert!(w.is_abort_stuck(1) && !w.can_accept(1, &ClientCommand::Abort));
    assert!(w.is_record_stuck(1, 0, &record(5, 1)));
    assert!(!w.is_record_stuck(1, 0, &record(5, 2)));
    assert!(!w.is_send_stuck(1));
    if let InternalRoomState::Playing { aborted, .. } = &mut w.rooms.get_mut(&0).unwrap().state {
        aborted.insert(1);
    }
    assert_eq!(
        reply(&mut w, 1, ClientCommand::Abort),
        ServerCommand::Abort(Err("aborted".to_string()))
    );
    assert!(!w.is_record_stuck(1, 0, &record(5, 1)));
    w.rooms.get_mut(&0).unwrap().local_chart = Some(("c".to_string(), "n".to_string()));
    assert!(w.is_send_stuck(1));
}
