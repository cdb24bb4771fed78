use phira_mp::bin::BinError;
use phira_mp::command::{ClientCommand, RoomId, ServerCommand};
use phira_mp::frame::{
    decode_packet, encode_frame, FrameError, FrameReader, Want, HEARTBEAT_DISCONNECT_TIMEOUT,
    HEARTBEAT_INTERVAL, HEARTBEAT_TIMEOUT, MAX_PACKET,
};
use phira_mp::stream::{Incoming, StreamError};

/// Feeds bytes one at a time as the reader wants them.
fn feed(reader: &mut FrameReader, data: &[u8]) -> Result<Vec<Vec<u8>>, FrameError> {
    let mut packets = Vec::new();
    let mut at = 0;
    while at < data.len() {
        let got = match reader.want() {
            Want::Byte => {
                at += 1;
                reader.byte(data[at - 1])?
            }
            Want::Body(n) => {
                let end = data.len().min(at + n as usize);
                let chunk = &data[at..end];
                at = end;
                reader.chunk(chunk)?
            }
        };
        packets.extend(got);
    }
    Ok(packets)
}

#[test]
fn frames_carry_their_length() {
    assert_eq!(encode_frame(&ClientCommand::Ping), vec![1, 0]);
    let big = "x".repeat(200);
    let f = encode_frame(&big);
    assert_eq!(&f[..4], &[0xca, 0x01, 0xc8, 0x01]);
    assert_eq!(f.len(), 204);
}

#[test]
fn packets_come_back_in_order() {
    let cmds = vec![
        ClientCommand::Ping,
        ClientCommand::CreateRoom { id: RoomId::try_from("abc".to_string()).unwrap() },
        ClientCommand::LeaveRoom,
    ];
    let mut bytes = Vec::new();
    for c in &cmds {
        bytes.extend(encode_frame(c));
    }
    let mut reader = FrameReader::new();
    let packets = feed(&mut reader, &bytes).unwrap();
    let back: Vec<ClientCommand> =
        packets.iter().map(|p| decode_packet::<ClientCommand>(p).unwrap()).collect();
    assert_eq!(back, cmds);
    assert_eq!(reader.want(), Want::Byte);
}

#[test]
fn frames_may_come_in_pieces() {
    let bytes = encode_frame(&"hello".to_string());
    for cut in 0..bytes.len() {
        let mut reader = FrameReader::new();
        let mut packets = feed(&mut reader, &bytes[..cut]).unwrap();
        packets.extend(feed(&mut reader, &bytes[cut..]).unwrap());
        assert_eq!(packets.len(), 1);
        assert_eq!(decode_packet::<String>(&packets[0]), Ok("hello".to_string()));
    }
}

#[test]
fn an_empty_packet_is_a_packet() {
    let mut reader = FrameReader::new();
    assert_eq!(reader.byte(0), Ok(Some(vec![])));
}

#[test]
fn lengths_end_within_five_bytes() {
    let mut reader = FrameReader::new();
    for _ in 0..4 {
        assert_eq!(reader.byte(0x80), Ok(None));
    }
    assert_eq!(reader.byte(0x80), Err(FrameError::InvalidLength));
}

#[test]
fn large_packets_are_refused() {
    let mut reader = FrameReader::new();
    for b in [0x81u8, 0x80, 0x80, 0x80] {
        assert_eq!(reader.byte(b), Ok(None));
    }
    assert_eq!(reader.byte(0x02), Err(FrameError::TooLarge));
    let mut reader = FrameReader::new();
    for b in [0x80u8, 0x80, 0x80, 0x80] {
        assert_eq!(reader.byte(b), Ok(None));
    }
    assert_eq!(reader.byte(0x02), Ok(None));
    assert_eq!(reader.want(), Want::Body(MAX_PACKET));
}

#[test]
fn a_stream_that_ends_in_a_packet_is_cut() {
    let mut reader = FrameReader::new();
    assert_eq!(reader.byte(3), Ok(None));
    assert_eq!(reader.chunk(&[]), Err(FrameError::Eof));
}

#[test]
fn frame_errors_have_texts() {
    assert_eq!(FrameError::InvalidLength.message(), "invalid length");
    assert_eq!(FrameError::TooLarge.message(), "data packet too large");
    assert_eq!(FrameError::Eof.message(), "eof while reading packet");
}

#[test]
fn times_of_heartbeats() {
    assert_eq!(HEARTBEAT_INTERVAL, 3);
    assert_eq!(HEARTBEAT_TIMEOUT, 2);
    assert_eq!(HEARTBEAT_DISCONNECT_TIMEOUT, 30);
}

#[test]
fn server_commands_are_delivered() {
    let cmd = ServerCommand::SelectChart(Err("not now".to_string()));
    let mut reader = FrameReader::new();
    let packets = feed(&mut reader, &encode_frame(&cmd)).unwrap();
    assert_eq!(decode_packet::<ServerCommand>(&packets[0]), Ok(cmd));
}

/// Hands bytes to a receiver in pieces of at most `piece` bytes.
fn receive(
    incoming: &mut Incoming,
    data: &[u8],
    piece: usize,
) -> (Vec<ClientCommand>, Option<StreamError>) {
    let mut commands = Vec::new();
    let mut at = 0;
    while at < data.len() && !incoming.is_ended() {
        let n = match incoming.want() {
            Want::Byte => 1,
            Want::Body(n) => piece.min(n as usize).min(data.len() - at),
        };
        match incoming.take(&data[at..at + n]) {
            Ok(command) => commands.extend(command),
            Err(e) => return (commands, Some(e)),
        }
        at += n;
    }
    (commands, None)
}

fn some_commands() -> Vec<ClientCommand> {
    vec![
        ClientCommand::Ping,
        ClientCommand::CreateRoom { id: RoomId::try_from("abc".to_string()).unwrap() },
        ClientCommand::LeaveRoom,
    ]
}

fn sent(version: u8) -> Vec<u8> {
    let mut bytes = vec![version];
    for c in &some_commands() {
        bytes.extend(encode_frame(c));
    }
    bytes
}

#[test]
fn a_stream_gives_its_version_and_its_commands() {
    for piece in 1..8 {
        let mut incoming = Incoming::new(None);
        assert_eq!(incoming.version(), None);
        let (got, fault) = receive(&mut incoming, &sent(7), piece);
        assert_eq!(got, some_commands());
        assert_eq!(fault, None);
        assert_eq!(incoming.version(), Some(7));
        assert_eq!(incoming.want(), Want::Byte);
    }
    let mut known = Incoming::new(Some(1));
    let (got, fault) = receive(&mut known, &sent(1)[1..], 100);
    assert_eq!((got, fault), (some_commands(), None));
}

#[test]
fn a_bad_frame_ends_a_stream() {
    let cases: Vec<(Vec<u8>, StreamError)> = vec![
        (vec![0x81, 0x80, 0x80, 0x80, 0x02], StreamError::Frame(FrameError::TooLarge)),
        (vec![0x80; 5], StreamError::Frame(FrameError::InvalidLength)),
        (vec![1, 200], StreamError::Packet(BinError::InvalidVariant)),
        (vec![0], StreamError::Packet(BinError::UnexpectedEof)),
    ];
    for (bad, error) in cases {
        let mut bytes = sent(3);
        bytes.extend(bad);
        bytes.extend(encode_frame(&ClientCommand::Ping));
        let mut incoming = Incoming::new(None);
        let (got, fault) = receive(&mut incoming, &bytes, 4);
        assert_eq!(got, some_commands());
        assert_eq!(fault, Some(error));
        assert!(incoming.is_ended());
        assert_eq!(incoming.version(), Some(3));
    }
}

#[test]
fn a_connection_may_end_inside_a_packet() {
    let mut incoming = Incoming::new(Some(1));
    assert_eq!(incoming.take::<ClientCommand>(&[2]), Ok(None));
    assert_eq!(incoming.want(), Want::Body(2));
    assert_eq!(
        incoming.take::<ClientCommand>(&[]),
        Err(StreamError::Frame(FrameError::Eof))
    );
    assert!(incoming.is_ended());
}
