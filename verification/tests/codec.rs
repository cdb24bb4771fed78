use phira_mp::bin::{write_uleb, BinError, BinaryReader};
use phira_mp::command::{
    ClientCommand, ClientRoomState, CompactPos, JoinRoomResponse, JudgeEvent, Judgement, Message,
    RoomId, RoomState, ServerCommand, TouchFrame, UserInfo, Varchar,
};
use phira_mp::frame::{decode_packet, encode_packet};
use phira_mp::table::IdTable;
use std::sync::Arc;

fn client_bytes(cmd: &ClientCommand) -> Vec<u8> {
    let mut out = Vec::new();
    encode_packet(cmd, &mut out);
    out
}

fn server_bytes(cmd: &ServerCommand) -> Vec<u8> {
    let mut out = Vec::new();
    encode_packet(cmd, &mut out);
    out
}

fn room_id(s: &str) -> RoomId {
    RoomId::try_from(s.to_string()).unwrap()
}

#[test]
fn uleb_bytes_are_shortest() {
    for (v, want) in [
        (0u64, vec![0u8]),
        (127, vec![0x7f]),
        (128, vec![0x80, 0x01]),
        (300, vec![0xac, 0x02]),
        (u64::MAX, vec![0xff, 0xff, 0xff, 0xff, 0xff, 0xff, 0xff, 0xff, 0xff, 0x01]),
    ] {
        let mut out = Vec::new();
        write_uleb(v, &mut out);
        assert_eq!(out, want);
        let mut r = BinaryReader::new(&out);
        assert_eq!(r.uleb(), Ok(v));
    }
}

#[test]
fn uleb_without_end_is_refused() {
    let long = [0xffu8; 11];
    let mut r = BinaryReader::new(&long);
    assert_eq!(r.uleb(), Err(BinError::InvalidLength));
    let cut = [0x80u8];
    let mut r = BinaryReader::new(&cut);
    assert_eq!(r.uleb(), Err(BinError::UnexpectedEof));
}

#[test]
fn numbers_are_little_endian() {
    let mut out = Vec::new();
    encode_packet(&0x1234u16, &mut out);
    encode_packet(&0x1234_5678u32, &mut out);
    encode_packet(&-2i32, &mut out);
    encode_packet(&-1i8, &mut out);
    encode_packet(&true, &mut out);
    assert_eq!(out, vec![0x34, 0x12, 0x78, 0x56, 0x34, 0x12, 0xfe, 0xff, 0xff, 0xff, 0xff, 1]);
    let mut r = BinaryReader::new(&out);
    assert_eq!(r.read::<u16>(), Ok(0x1234));
    assert_eq!(r.read::<u32>(), Ok(0x1234_5678));
    assert_eq!(r.read::<i32>(), Ok(-2));
    assert_eq!(r.read::<i8>(), Ok(-1));
    assert_eq!(r.read::<bool>(), Ok(true));
    assert_eq!(r.read::<u8>(), Err(BinError::UnexpectedEof));
}

#[test]
fn texts_carry_their_length_in_bytes() {
    let mut out = Vec::new();
    encode_packet(&"谱a".to_string(), &mut out);
    assert_eq!(out, vec![4, 0xe8, 0xb0, 0xb1, b'a']);
    assert_eq!(decode_packet::<String>(&out), Ok("谱a".to_string()));
}

#[test]
fn broken_text_is_repaired() {
    let data = [3u8, b'a', 0xff, b'b'];
    assert_eq!(decode_packet::<String>(&data), Ok("a\u{fffd}b".to_string()));
    let cut = [5u8, b'a'];
    assert_eq!(decode_packet::<String>(&cut), Err(BinError::UnexpectedEof));
}

#[test]
fn ping_is_one_byte() {
    assert_eq!(client_bytes(&ClientCommand::Ping), vec![0]);
    assert_eq!(server_bytes(&ServerCommand::Pong), vec![0]);
}

#[test]
fn authenticate_is_tag_and_text() {
    let token = Varchar::<32>::try_from("abc".to_string()).unwrap();
    let cmd = ClientCommand::Authenticate { token };
    let b = client_bytes(&cmd);
    assert_eq!(b, vec![1, 3, b'a', b'b', b'c']);
    assert_eq!(decode_packet::<ClientCommand>(&b), Ok(cmd));
}

#[test]
fn long_tokens_are_refused() {
    assert_eq!(
        Varchar::<32>::try_from("x".repeat(33)).map(|v| v.into_inner()),
        Err(BinError::StringTooLong)
    );
    assert_eq!(
        Varchar::<32>::try_from("x".repeat(32)).map(|v| v.into_inner()),
        Ok("x".repeat(32))
    );
    let mut b = vec![1u8, 33];
    b.extend_from_slice("x".repeat(33).as_bytes());
    assert_eq!(decode_packet::<ClientCommand>(&b), Err(BinError::StringTooLong));
}

#[test]
fn unknown_variants_are_refused() {
    assert_eq!(decode_packet::<ClientCommand>(&[200u8]), Err(BinError::InvalidVariant));
    assert_eq!(decode_packet::<ServerCommand>(&[200u8]), Err(BinError::InvalidVariant));
    assert_eq!(decode_packet::<RoomState>(&[9u8]), Err(BinError::InvalidVariant));
    assert_eq!(decode_packet::<Judgement>(&[6u8]), Err(BinError::InvalidVariant));
}

#[test]
fn room_ids_have_few_characters() {
    for good in ["a", "Room-1", "_", "0123456789abcdefghij"] {
        assert_eq!(room_id(good).to_string(), good);
    }
    assert!(matches!(RoomId::try_from(String::new()), Err(BinError::InvalidRoomId)));
    assert!(matches!(RoomId::try_from("a b".to_string()), Err(BinError::InvalidRoomId)));
    assert!(matches!(RoomId::try_from("房间".to_string()), Err(BinError::InvalidRoomId)));
    assert!(matches!(RoomId::try_from("x".repeat(21)), Err(BinError::StringTooLong)));
}

#[test]
fn errors_have_texts() {
    assert_eq!(BinError::UnexpectedEof.message(), "unexpected EOF");
    assert_eq!(BinError::InvalidLength.message(), "invalid length");
    assert_eq!(BinError::StringTooLong.message(), "string too long");
    assert_eq!(BinError::InvalidRoomId.message(), "invalid room id");
    assert_eq!(BinError::InvalidVariant.message(), "invalid variant");
}

fn client_commands() -> Vec<ClientCommand> {
    let frame = TouchFrame {
        time: 1.5f32.to_bits(),
        points: vec![
            (-1, CompactPos::new(half::f16::from_f32(0.5).to_bits(), 0)),
            (3, CompactPos::new(1, 2)),
        ],
    };
    let judge = JudgeEvent {
        time: 2.25f32.to_bits(),
        line_id: 7,
        note_id: -9,
        judgement: Judgement::HoldGood,
    };
    let id = || Varchar::<40>::try_from("chart".to_string()).unwrap();
    vec![
        ClientCommand::Ping,
        ClientCommand::Chat { message: Varchar::try_from("你好".to_string()).unwrap() },
        ClientCommand::Touches { frames: Arc::new(vec![frame]) },
        ClientCommand::Judges { judges: Arc::new(vec![judge]) },
        ClientCommand::CreateRoom { id: room_id("r") },
        ClientCommand::JoinRoom { id: room_id("r"), monitor: true },
        ClientCommand::LeaveRoom,
        ClientCommand::LockRoom { lock: true },
        ClientCommand::CycleRoom { cycle: false },
        ClientCommand::SelectChart { id: -5 },
        ClientCommand::RequestStart,
        ClientCommand::Ready,
        ClientCommand::CancelReady,
        ClientCommand::Played { id: 12 },
        ClientCommand::Abort,
        ClientCommand::SelectLocalChart {
            id: id(),
            name: Varchar::try_from("n".to_string()).unwrap(),
        },
        ClientCommand::SelectOnlineChart { id: 3 },
        ClientCommand::SendChart { addr: "1.2.3.4".to_string(), port: 80 },
        ClientCommand::DownloadReady,
        ClientCommand::UploadChart { id: id(), data: vec![1, 2, 3] },
        ClientCommand::DownloadChart { id: id() },
        ClientCommand::CancelLocalChart,
        ClientCommand::CancelDownloadReady,
    ]
}

#[test]
fn client_commands_come_back() {
    for cmd in client_commands() {
        let b = client_bytes(&cmd);
        assert_eq!(decode_packet::<ClientCommand>(&b), Ok(cmd));
    }
}

#[test]
fn cut_client_commands_are_refused() {
    for cmd in client_commands() {
        let b = client_bytes(&cmd);
        for n in 0..b.len() {
            assert_eq!(
                decode_packet::<ClientCommand>(&b[..n]),
                Err(BinError::UnexpectedEof),
                "{cmd:?} cut to {n}"
            );
        }
    }
}

fn room_state() -> ClientRoomState {
    let mut users = IdTable::new();
    users.insert(4, UserInfo { id: 4, name: "四".to_string(), monitor: false });
    users.insert(2, UserInfo { id: 2, name: "b".to_string(), monitor: true });
    ClientRoomState {
        id: room_id("room"),
        state: RoomState::SelectChart(Some(9)),
        live: true,
        locked: false,
        cycle: true,
        is_host: true,
        is_ready: false,
        users,
    }
}

#[test]
fn server_commands_come_back() {
    let user = || UserInfo { id: 1, name: "u".to_string(), monitor: false };
    let refused = || Err::<(), String>("no".to_string());
    let cmds = vec![
        ServerCommand::Pong,
        ServerCommand::Authenticate(Ok((user(), Some(room_state())))),
        ServerCommand::Authenticate(Ok((user(), None))),
        ServerCommand::Authenticate(Err("bad".to_string())),
        ServerCommand::Chat(Ok(())),
        ServerCommand::Chat(refused()),
        ServerCommand::Touches { player: 5, frames: Arc::new(vec![]) },
        ServerCommand::Judges { player: 5, judges: Arc::new(vec![]) },
        ServerCommand::Message(Message::Chat { user: 1, content: "c".to_string() }),
        ServerCommand::Message(Message::Played {
            user: 1,
            score: 1_000_000,
            accuracy: 0.5f32.to_bits(),
            full_combo: true,
        }),
        ServerCommand::Message(Message::SelectLocalChart {
            user: 1,
            name: "n".to_string(),
            id: "i".to_string(),
        }),
        ServerCommand::ChangeState(RoomState::Playing),
        ServerCommand::ChangeHost(true),
        ServerCommand::JoinRoom(Ok(JoinRoomResponse {
            state: RoomState::LocalChart,
            users: vec![user()],
            live: true,
        })),
        ServerCommand::OnJoinRoom(user()),
        ServerCommand::Abort(refused()),
        ServerCommand::StartDownload {
            host_id: 1,
            host_name: "h".to_string(),
            addr: "a".to_string(),
            port: 9,
            chart_id: "i".to_string(),
            chart_name: "n".to_string(),
        },
        ServerCommand::HostReady,
        ServerCommand::DownloadChart(Ok(vec![9, 8])),
        ServerCommand::DownloadChart(Err("x".to_string())),
    ];
    for cmd in cmds {
        let b = server_bytes(&cmd);
        assert_eq!(decode_packet::<ServerCommand>(&b), Ok(cmd));
    }
}

#[test]
fn answers_have_exact_bytes() {
    // The tag, then one byte for `Ok` (1) or `Err` (0).
    assert_eq!(server_bytes(&ServerCommand::Chat(Ok(()))), vec![2, 1]);
    assert_eq!(
        server_bytes(&ServerCommand::Chat(Err("no".to_string()))),
        vec![2, 0, 2, b'n', b'o']
    );
    assert_eq!(
        server_bytes(&ServerCommand::ChangeState(RoomState::SelectChart(Some(1)))),
        vec![6, 0, 1, 1, 0, 0, 0]
    );
    assert_eq!(
        server_bytes(&ServerCommand::Message(Message::NewHost { user: 3 })),
        vec![5, 4, 3, 0, 0, 0]
    );
}

#[test]
fn users_of_a_room_keep_their_order() {
    let b = {
        let mut out = Vec::new();
        encode_packet(&room_state(), &mut out);
        out
    };
    let back = decode_packet::<ClientRoomState>(&b).unwrap();
    assert_eq!(back, room_state());
    assert_eq!(*back.users.key(0), 4);
    assert_eq!(*back.users.key(1), 2);
}

#[test]
fn what_follows_a_packet_is_ignored() {
    assert_eq!(decode_packet::<ClientCommand>(&[0, 99, 99]), Ok(ClientCommand::Ping));
}

#[test]
fn room_ids_from_the_wire_are_checked() {
    let wire = |b: &[u8]| {
        let mut v = vec![b.len() as u8];
        v.extend_from_slice(b);
        decode_packet::<RoomId>(&v)
    };
    assert_eq!(wire(b"Room_1-x").map(|id| id.to_string()), Ok("Room_1-x".to_string()));
    assert!(wire(&[b'a'; 20]).is_ok());
    assert_eq!(wire(&[b'a'; 21]), Err(BinError::StringTooLong));
    assert_eq!(wire(b""), Err(BinError::InvalidRoomId));
    assert_eq!(wire("谱".as_bytes()), Err(BinError::InvalidRoomId));
    assert_eq!(wire(&[b'a', 0xff, b'b']), Err(BinError::InvalidRoomId));
}
