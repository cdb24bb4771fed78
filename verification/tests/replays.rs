use phira_mp::command::{CompactPos, JudgeEvent, Judgement, TouchFrame};
use phira_mp::replay::{
    boundary_from, checked_record_id, clamp_unit_half, fresh_boundary, fresh_record_id,
    count_uploads, is_recorder_bot, record_id, recorder_bot_user_name, replay_id_text, upload_failure, upload_form, upload_request, EncodeError, JudgementType, PhiraRecord,
    ReplayIdValue, ReplayJudgeEvent, ReplayManager, ReplayTouchFrame, ReplayTouchPoint,
    RoomReplayManager, UploadResponse, RECORDER_BOT_USER_ID,
};
use phira_mp::stats::{JudgeEventWrapper, PlayerJudgementStats};

fn frame(time: f32, points: Vec<(i8, CompactPos)>) -> TouchFrame {
    TouchFrame { time: time.to_bits(), points }
}

fn judge(time: f32, judgement: Judgement) -> JudgeEvent {
    JudgeEvent { time: time.to_bits(), line_id: 1, note_id: 2, judgement }
}

#[test]
fn clamping_agrees_with_half() {
    let zero = half::f16::from_f32(0.0);
    let one = half::f16::from_f32(1.0);
    for bits in 0..=u16::MAX {
        let x = half::f16::from_bits(bits);
        let want = half::f16::from_f32(x.to_f32().clamp(0.0, 1.0));
        let got = half::f16::from_bits(clamp_unit_half(bits));
        if x.is_nan() {
            assert!(got.is_nan());
        } else {
            assert_eq!(got.to_bits(), want.to_bits(), "{bits:#x}");
            assert!(zero <= got && got <= one);
        }
    }
}

fn small_record() -> PhiraRecord {
    PhiraRecord {
        id: 0x01020304,
        time: 0x1122334455667788,
        chart: -1,
        chart_name: "谱".to_string(),
        user: 7,
        user_name: "u".to_string(),
        touch_frames: vec![ReplayTouchFrame {
            time: 1.0f32.to_bits(),
            points: vec![ReplayTouchPoint {
                id: 2,
                x: half::f16::from_f32(0.5).to_bits(),
                y: half::f16::from_f32(2.0).to_bits(),
            }],
        }],
        judge_events: vec![ReplayJudgeEvent {
            time: 2.0f32.to_bits(),
            line_id: 3,
            note_id: -2,
            judgement: JudgementType::HoldGood,
        }],
    }
}

fn small_payload() -> Vec<u8> {
    vec![
        0x04, 0x03, 0x02, 0x01, // id
        0x88, 0x77, 0x66, 0x55, 0x44, 0x33, 0x22, 0x11, // time
        0xff, 0xff, 0xff, 0xff, // chart
        0x03, 0xe8, 0xb0, 0xb1, // name of the chart
        0x07, 0x00, 0x00, 0x00, // user
        0x01, b'u', // name of the user
        0x01, // touch frames
        0x00, 0x00, 0x80, 0x3f, 0x01, // time, points
        0x02, 0x00, 0x38, 0x00, 0x3c, // a point at a half and at one
        0x01, // judgements
        0x00, 0x00, 0x00, 0x40, 0x03, 0x00, 0x00, 0x00, 0xfe, 0xff, 0xff, 0xff, 0x05,
    ]
}

#[test]
fn payload_has_exact_bytes() {
    assert_eq!(small_record().encode_payload(), small_payload());
}

#[test]
fn record_files_hold_the_compressed_payload() {
    let file = small_record().encode().unwrap();
    assert_eq!(&file[..8], b"PHIRAREC");
    assert_eq!(&file[8..12], &[1, 0, 0, 0]);
    assert_eq!(file[12], 1);
    assert_eq!(zstd::decode_all(&file[13..]).unwrap(), small_payload());
    assert_ne!(&file[13..], small_payload().as_slice());
    assert_eq!(
        zstd::zstd_safe::get_frame_content_size(&file[13..]).unwrap(),
        Some(small_payload().len() as u64)
    );
}

#[test]
fn assembled_files_begin_with_their_head() {
    let file = PhiraRecord::assemble(&[9, 8, 7]);
    assert_eq!(file, b"PHIRAREC\x01\x00\x00\x00\x01\x09\x08\x07");
}

#[test]
fn long_names_take_more_than_one_byte_of_length() {
    let mut r = small_record();
    r.chart_name = "n".repeat(300);
    let p = r.encode_payload();
    assert_eq!(&p[16..18], &[0xac, 0x02]);
}

#[test]
fn recording_begins_with_the_first_event() {
    let mut m = RoomReplayManager::new("room".to_string(), 3, "chart".to_string());
    m.init_player(1, "one".to_string());
    m.init_player(RECORDER_BOT_USER_ID, recorder_bot_user_name());
    m.record_touch_frames(1, &vec![]);
    assert!(!m.is_recording);
    m.record_touch_frames(1, &vec![frame(0.5, vec![(-1, CompactPos::new(1, 2))])]);
    assert!(m.is_recording);
    m.record_judge_events(1, &vec![judge(1.0, Judgement::Bad)]);
    m.record_judge_events(2, &vec![judge(1.0, Judgement::Bad)]);
    m.record_judge_events(RECORDER_BOT_USER_ID, &vec![judge(1.0, Judgement::Bad)]);
    assert_eq!(m.players_to_save(), vec![1]);
    let r = m.record_of(1, 42, 1000).unwrap();
    assert_eq!(r.id, 42);
    assert_eq!(r.chart, 3);
    assert_eq!(r.user_name, "one");
    assert_eq!(r.touch_frames.len(), 1);
    assert_eq!(r.touch_frames[0].points[0], ReplayTouchPoint { id: 255, x: 1, y: 2 });
    assert_eq!(r.judge_events.len(), 1);
    assert_eq!(r.judge_events[0].judgement, JudgementType::Bad);
    assert_eq!(m.record_of(2, 42, 1000), None);
    assert_eq!(
        m.record_of(RECORDER_BOT_USER_ID, 1, 1).unwrap().judge_events.len(),
        0
    );
}

#[test]
fn recorders_of_rooms() {
    let mut all = ReplayManager::new();
    let room = "r".to_string();
    assert!(all.get_room_manager(&room).is_none());
    let made = all.create_room_manager(room.clone(), 0, String::new());
    assert_eq!(made.room_id, room);
    made.chart_id = 3;
    assert_eq!(all.get_room_manager(&room).unwrap().chart_id, 3);
    all.init_player(&room, 5, "five".to_string());
    all.set_chart(&room, 8, "eight".to_string());
    all.start_recording(&room);
    all.record_judge_events(&room, 5, &vec![judge(0.0, Judgement::Perfect)]);
    all.record_touch_frames(&room, 5, &vec![frame(0.0, vec![])]);
    all.stop_recording(&room);
    assert_eq!(all.players_to_save(&room), vec![5]);
    let m = all.remove_room_manager(&room).unwrap();
    assert_eq!(m.chart_id, 8);
    assert!(!m.is_recording);
    assert_eq!(m.record_of(5, 1, 1).unwrap().judge_events.len(), 1);
    assert!(all.remove_room_manager(&room).is_none());
}

#[test]
fn judgements_have_numbers() {
    for (j, n) in [
        (Judgement::Perfect, 0u8),
        (Judgement::Good, 1),
        (Judgement::Bad, 2),
        (Judgement::Miss, 3),
        (Judgement::HoldPerfect, 4),
        (Judgement::HoldGood, 5),
    ] {
        assert_eq!(JudgementType::from_phira(&j).to_byte(), n);
    }
}

#[test]
fn paths_of_records() {
    assert_eq!(RoomReplayManager::get_record_path(7, 12, 99), "record/7/12/99.phirarec");
    assert_eq!(RoomReplayManager::get_record_path(7, -1, 0), "record/7/-1/0.phirarec");
}

#[test]
fn ids_of_records_are_not_negative() {
    assert_eq!(record_id(-5), 5);
    assert_eq!(record_id(5), 5);
    assert_eq!(checked_record_id(i32::MIN), None);
    assert_eq!(checked_record_id(-7), Some(7));
    assert_eq!(checked_record_id(i32::MAX), Some(i32::MAX));
    assert!(fresh_record_id().map_or(true, |id| id >= 0));
}

#[test]
fn ids_of_replays_in_any_shape() {
    assert_eq!(replay_id_text(ReplayIdValue::Missing), None);
    assert_eq!(replay_id_text(ReplayIdValue::Text("x".to_string())), Some("x".to_string()));
    assert_eq!(replay_id_text(ReplayIdValue::Signed(-3)), Some("-3".to_string()));
    assert_eq!(
        replay_id_text(ReplayIdValue::Unsigned(u64::MAX)),
        Some("18446744073709551615".to_string())
    );
}

#[test]
fn upload_forms_have_exact_bytes() {
    let body = upload_form("B", b"DATA", Some("chart"), Some("user"));
    let want = "--B\r\nContent-Disposition: form-data; name=\"file\"; filename=\"replay.phirarec\"\r\nContent-Type: application/octet-stream\r\n\r\nDATA\r\n--B\r\nContent-Disposition: form-data; name=\"chart_name\"\r\n\r\nchart\r\n--B\r\nContent-Disposition: form-data; name=\"username\"\r\n\r\nuser\r\n--B--\r\n";
    assert_eq!(body, want.as_bytes());
    let bare = upload_form("B", b"", None, None);
    assert!(bare.ends_with(b"\r\n\r\n\r\n--B--\r\n"));
}

#[test]
fn boundaries_of_forms() {
    assert_eq!(boundary_from(17), "----WebKitFormBoundary17");
    assert!(fresh_boundary().starts_with("----WebKitFormBoundary"));
    assert_ne!(fresh_boundary(), fresh_boundary());
}

#[test]
fn the_recorder_is_known() {
    assert!(is_recorder_bot(-999));
    assert!(!is_recorder_bot(2));
    assert_eq!(recorder_bot_user_name(), "回放录制器");
}

#[test]
fn totals_of_judgements() {
    let mut s = PlayerJudgementStats::new(1, "p".to_string());
    assert_eq!(s.accuracy_ratio(), None);
    for j in [
        Judgement::Perfect,
        Judgement::Good,
        Judgement::HoldPerfect,
        Judgement::Bad,
        Judgement::Perfect,
        Judgement::Miss,
    ] {
        s.add_judgement(&j);
    }
    assert_eq!((s.perfect, s.good, s.bad, s.miss), (2, 1, 1, 1));
    assert_eq!(s.hold_perfect, 1);
    assert_eq!(s.current_combo, 0);
    assert_eq!(s.max_combo, 2);
    assert_eq!(s.score, 360);
    // 100 for each perfect, 50 for each good and 10 for each bad, out of 100 each.
    assert_eq!(s.accuracy_ratio(), Some((260, 500)));
    assert!(s.has_room(1000));
}

#[test]
fn events_for_those_who_listen() {
    let e = judge(1.5, Judgement::HoldGood);
    let w = JudgeEventWrapper::from_judge_event(3, "n".to_string(), &e);
    assert_eq!(w.user_id, 3);
    assert_eq!(w.user_name, "n");
    assert_eq!(w.time, 1.5f32.to_bits());
    assert_eq!(w.judgement, "HoldGood");
}

#[test]
fn what_the_compressor_gives_is_finished() {
    let file = PhiraRecord::finish(Ok(vec![9, 8])).unwrap();
    assert_eq!(&file[..8], b"PHIRAREC");
    assert_eq!(&file[8..], &[1, 0, 0, 0, 1, 9, 8]);
    let failed = std::io::Error::new(std::io::ErrorKind::Other, "no");
    assert_eq!(PhiraRecord::finish(Err(failed)), Err(EncodeError::Compress));
    let record = PhiraRecord {
        id: 1,
        time: 2,
        chart: 3,
        chart_name: "c".to_string(),
        user: 4,
        user_name: "u".to_string(),
        touch_frames: vec![ReplayTouchFrame { time: 0, points: vec![] }],
        judge_events: vec![],
    };
    assert!(record.payload_fits());
    let file = record.encode().unwrap();
    assert_eq!(zstd::decode_all(&file[13..]).unwrap(), record.encode_payload());
}

#[test]
fn a_judgement_counts_where_its_totals_fit() {
    let mut s = PlayerJudgementStats::new(1, "a".to_string());
    s.score = u32::MAX - 10;
    assert!(!s.has_room(1));
    assert!(s.can_count(&Judgement::Miss));
    assert!(s.can_count(&Judgement::Bad));
    assert!(!s.can_count(&Judgement::Good));
    let event = |judgement| JudgeEvent { time: 0, line_id: 0, note_id: 0, judgement };
    assert!(s.can_count_all(&vec![event(Judgement::Miss), event(Judgement::Bad)]));
    assert!(!s.can_count_all(&vec![event(Judgement::Bad), event(Judgement::Bad)]));
    s.add_judgement(&Judgement::Miss);
    s.add_judgement(&Judgement::Bad);
    assert_eq!((s.miss, s.bad, s.score), (1, 1, u32::MAX));
    s.hold_good = u32::MAX;
    assert!(s.can_count(&Judgement::Miss));
    assert!(!s.can_count(&Judgement::HoldGood));
}

#[test]
fn the_records_of_all_players_are_saved() {
    let mut m = RoomReplayManager::new("r".to_string(), 7, "song".to_string());
    m.init_player(3, "c".to_string());
    m.init_player(RECORDER_BOT_USER_ID, recorder_bot_user_name());
    m.init_player(1, "a".to_string());
    let saved = m.records_to_save(&vec![50, 60], 1000);
    assert_eq!(saved.len(), 2);
    assert_eq!(saved[0].0, "record/3/7/1000.phirarec");
    assert_eq!((saved[0].1.id, saved[0].1.user), (50, 3));
    assert_eq!(saved[0].1.user_name, "c");
    assert_eq!(saved[1].0, "record/1/7/1000.phirarec");
    assert_eq!((saved[1].1.id, saved[1].1.time, saved[1].1.chart), (60, 1000, 7));
}

#[test]
fn uploads_are_asked_for_and_counted() {
    let r = upload_request("tok", "B", b"xy", None, Some("u"));
    assert_eq!(r.authorization, "Bearer tok");
    assert_eq!(r.content_type, "multipart/form-data; boundary=B");
    assert_eq!(r.body, upload_form("B", b"xy", None, Some("u")));
    assert_eq!(upload_failure("500 No", "why"), "Upload failed with status 500 No: why");
    let answer =
        |success| Some(UploadResponse { success, message: String::new(), replay_id: None });
    assert_eq!(count_uploads(&vec![answer(true), None, answer(false)]), (2, 1));
}
