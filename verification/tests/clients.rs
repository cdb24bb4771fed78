use phira_mp::client::{Answer, Call, Client, Heard, LocalChartEvent};
use phira_mp::command::{
    ClientCommand, JoinRoomResponse, JudgeEvent, Judgement, Message, RoomId, RoomState,
    ServerCommand, TouchFrame, UserInfo,
};
use std::sync::Arc;

fn room_id(s: &str) -> RoomId {
    RoomId::try_from(s.to_string()).unwrap()
}

fn user(id: i32, monitor: bool) -> UserInfo {
    UserInfo { id, name: format!("u{id}"), monitor }
}

fn in_room() -> Client {
    let mut c = Client::new();
    c.authenticated(user(1, false), None);
    c.room_created(room_id("r"));
    c
}

#[test]
fn requests_are_pending_until_answered() {
    let mut c = Client::new();
    assert_eq!(c.create_room(room_id("r")), ClientCommand::CreateRoom { id: room_id("r") });
    assert!(c.is_pending(Call::CreateRoom));
    assert!(!c.is_pending(Call::JoinRoom));
    assert_eq!(
        c.process(ServerCommand::CreateRoom(Ok(()))),
        Heard::Answer(Call::CreateRoom, Answer::Done(Ok(())))
    );
    assert!(!c.is_pending(Call::CreateRoom));
}

#[test]
fn pongs_are_heard() {
    let mut c = Client::new();
    assert_eq!(c.process(ServerCommand::Pong), Heard::Pong);
    c.ping_done(false);
    c.ping_done(false);
    assert_eq!(c.ping_fail_count(), 2);
    c.ping_done(true);
    assert_eq!(c.ping_fail_count(), 0);
}

#[test]
fn who_made_a_room_is_its_host() {
    let c = in_room();
    assert_eq!(c.blocking_room_id(), Some(room_id("r")));
    assert_eq!(c.blocking_room_state(), Some(RoomState::SelectChart(None)));
    assert_eq!(c.blocking_is_host(), Some(true));
    assert_eq!(c.blocking_is_ready(), Some(false));
    assert_eq!(c.user_name_opt(1), Some("u1".to_string()));
}

#[test]
fn who_joins_is_no_host() {
    let mut c = Client::new();
    c.authenticated(user(1, false), None);
    c.room_joined(
        room_id("r"),
        JoinRoomResponse {
            state: RoomState::SelectChart(Some(4)),
            users: vec![user(1, false), user(2, false)],
            live: true,
        },
    );
    assert_eq!(c.blocking_is_host(), Some(false));
    assert_eq!(c.blocking_room_state(), Some(RoomState::SelectChart(Some(4))));
    assert_eq!(c.user_name_opt(2), Some("u2".to_string()));
    assert_eq!(c.user_name(9), "?");
    c.room_left();
    assert_eq!(c.blocking_room_id(), None);
}

#[test]
fn messages_change_the_room_and_are_kept() {
    let mut c = in_room();
    c.process(ServerCommand::Message(Message::LockRoom { lock: true }));
    c.process(ServerCommand::Message(Message::CycleRoom { cycle: true }));
    c.process(ServerCommand::OnJoinRoom(user(2, true)));
    {
        let room = c.blocking_state().as_ref().unwrap();
        assert!(room.locked);
        assert!(room.cycle);
        assert!(room.live);
    }
    assert_eq!(c.user_name_opt(2), Some("u2".to_string()));
    c.process(ServerCommand::Message(Message::LeaveRoom { user: 2, name: "u2".to_string() }));
    assert_eq!(c.user_name_opt(2), None);
    let messages = c.blocking_take_messages();
    assert_eq!(messages.len(), 3);
    assert_eq!(messages[0], Message::LockRoom { lock: true });
    assert_eq!(c.blocking_take_messages(), vec![]);
}

#[test]
fn watched_players_are_seen_until_the_room_changes() {
    let mut c = in_room();
    let frame = || TouchFrame { time: 1, points: vec![] };
    let event = JudgeEvent { time: 1, line_id: 1, note_id: 1, judgement: Judgement::Good };
    c.process(ServerCommand::Touches { player: 5, frames: Arc::new(vec![frame(), frame()]) });
    c.process(ServerCommand::Touches { player: 6, frames: Arc::new(vec![frame()]) });
    c.process(ServerCommand::Judges { player: 5, judges: Arc::new(vec![event]) });
    assert_eq!(c.live_player(5).touch_frames.len(), 2);
    assert_eq!(c.live_player(5).judge_events, vec![event]);
    assert_eq!(c.live_player(6).touch_frames.len(), 1);
    c.live_player(5).touch_frames.clear();
    assert_eq!(c.live_player(5).touch_frames.len(), 0);
    assert_eq!(c.live_player(5).judge_events.len(), 1);
    assert_eq!(c.live_player(6).touch_frames.len(), 1);
    c.process(ServerCommand::ChangeState(RoomState::Playing));
    assert_eq!(c.blocking_room_state(), Some(RoomState::Playing));
    assert_eq!(c.live_player(5).touch_frames.len(), 0);
}

#[test]
fn hosts_are_ready_when_the_state_changes() {
    let mut c = in_room();
    c.process(ServerCommand::ChangeState(RoomState::WaitingForReady));
    assert_eq!(c.blocking_is_ready(), Some(true));
    c.process(ServerCommand::ChangeHost(false));
    assert_eq!(c.blocking_is_host(), Some(false));
    c.process(ServerCommand::ChangeState(RoomState::WaitingForReady));
    assert_eq!(c.blocking_is_ready(), Some(false));
    c.set_ready(true);
    assert_eq!(c.blocking_is_ready(), Some(true));
}

#[test]
fn shared_charts_leave_events() {
    let mut c = in_room();
    c.process(ServerCommand::ChangeLocalChart { local: true, chart_id: "x".to_string() });
    c.process(ServerCommand::HostReady);
    c.process(ServerCommand::LocalChartCanceled);
    let events = c.blocking_take_local_chart_events();
    assert_eq!(events.len(), 3);
    assert_eq!(
        events[0],
        LocalChartEvent::ChangeLocalChart { local: true, chart_id: "x".to_string() }
    );
    assert!(c.blocking_take_local_chart_events().is_empty());
}

#[test]
fn long_texts_are_refused_before_they_are_sent() {
    let mut c = Client::new();
    assert!(c.chat("x".repeat(201)).is_err());
    assert!(!c.is_pending(Call::Chat));
    assert!(c.chat("x".repeat(200)).is_ok());
    assert!(c.is_pending(Call::Chat));
    assert!(c.authenticate("t".repeat(33)).is_err());
    assert!(c.select_local_chart("i".repeat(41), "n".to_string()).is_err());
    assert!(c.select_local_chart("i".to_string(), "n".repeat(65)).is_err());
    assert!(c.upload_chart("i".repeat(41), vec![]).is_err());
    assert!(c.download_chart("i".repeat(40)).is_ok());
}

#[test]
fn answers_go_to_their_requests() {
    let mut c = Client::new();
    let _ = c.join_room(room_id("r"), false);
    assert_eq!(
        c.process(ServerCommand::JoinRoom(Err("locked".to_string()))),
        Heard::Answer(Call::JoinRoom, Answer::Joined(Err("locked".to_string())))
    );
    let _ = c.download_chart("i".to_string());
    assert_eq!(
        c.process(ServerCommand::DownloadChart(Ok(vec![1]))),
        Heard::Answer(Call::DownloadChart, Answer::Downloaded(Ok(vec![1])))
    );
    assert_eq!(c.ready(), ClientCommand::Ready);
    assert_eq!(
        c.process(ServerCommand::Ready(Ok(()))),
        Heard::Answer(Call::Ready, Answer::Done(Ok(())))
    );
}
