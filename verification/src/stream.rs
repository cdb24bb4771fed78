//! One direction of a connection: the version of the protocol, and then a frame for each
//! command.
use crate::bin;
use crate::bin::{BinError, BinaryData};
use crate::frame;
use crate::frame::{Fed, FrameError, FrameReader, FrameState, Want};
use vstd::prelude::*;

verus! {

/// Why nothing more is received.
#[derive(Debug, Clone, Copy, PartialEq, Eq, Structural)]
pub enum StreamError {
    /// The bytes are no frames.
    Frame(FrameError),
    /// A packet holds no command.
    Packet(BinError),
}

/// How far a stream is.
#[verifier::ext_equal]
pub enum StreamState {
    /// The version is still to come.
    Version,
    /// Frames come in.
    Open { version: u8, state: FrameState },
    /// Nothing more is received.
    Ended { version: Option<u8> },
}

/// What comes of receiving bytes: the state after them, the commands that are handled, and
/// the error that ended it, if one did.
#[verifier::ext_equal]
pub struct Received<M> {
    pub state: StreamState,
    pub payloads: Seq<M>,
    pub fault: Option<StreamError>,
}

/// What one byte does.
pub open spec fn received_byte<R: BinaryData>(s: StreamState, b: u8) -> Received<R::Model> {
    match s {
        StreamState::Version => Received {
            state: StreamState::Open { version: b, state: frame::at_start() },
            payloads: Seq::empty(),
            fault: None,
        },
        StreamState::Open { version, state } => match frame::step(state, b) {
            Ok((t, None)) => Received {
                state: StreamState::Open { version, state: t },
                payloads: Seq::empty(),
                fault: None,
            },
            Ok((t, Some(p))) => match R::parse(p) {
                Ok((m, _)) => Received {
                    state: StreamState::Open { version, state: t },
                    payloads: seq![m],
                    fault: None,
                },
                Err(e) => Received {
                    state: StreamState::Ended { version: Some(version) },
                    payloads: Seq::empty(),
                    fault: Some(StreamError::Packet(e)),
                },
            },
            Err(e) => Received {
                state: StreamState::Ended { version: Some(version) },
                payloads: Seq::empty(),
                fault: Some(StreamError::Frame(e)),
            },
        },
        StreamState::Ended { .. } => Received { state: s, payloads: Seq::empty(), fault: None },
    }
}

/// What receiving `b`, byte by byte, does; after an error nothing more is received.
pub open spec fn received<R: BinaryData>(s: StreamState, b: Seq<u8>) -> Received<R::Model>
    decreases b.len(),
{
    if b.len() == 0 {
        Received { state: s, payloads: Seq::empty(), fault: None }
    } else {
        let first = received_byte::<R>(s, b[0]);
        if first.fault is Some {
            first
        } else {
            let rest = received::<R>(first.state, b.skip(1));
            Received {
                state: rest.state,
                payloads: first.payloads + rest.payloads,
                fault: rest.fault,
            }
        }
    }
}

/// The commands in packets, up to the first packet that holds none, and why it holds none.
pub open spec fn decoded<R: BinaryData>(packets: Seq<Seq<u8>>) -> (
    Seq<R::Model>,
    Option<StreamError>,
)
    decreases packets.len(),
{
    if packets.len() == 0 {
        (Seq::empty(), None)
    } else {
        match R::parse(packets[0]) {
            Ok((m, _)) => {
                let (rest, fault) = decoded::<R>(packets.skip(1));
                (seq![m] + rest, fault)
            },
            Err(e) => (Seq::empty(), Some(StreamError::Packet(e))),
        }
    }
}

/// What is received of frames that were read.
pub open spec fn outcome<R: BinaryData>(version: u8, fed: Fed) -> Received<R::Model> {
    let (payloads, fault) = decoded::<R>(fed.packets);
    let ended = StreamState::Ended { version: Some(version) };
    if fault is Some {
        Received { state: ended, payloads, fault }
    } else {
        match fed.error {
            Some(e) => Received { state: ended, payloads, fault: Some(StreamError::Frame(e)) },
            None => Received {
                state: StreamState::Open { version, state: fed.state },
                payloads,
                fault: None,
            },
        }
    }
}

/// What is received is the commands in the packets that are read.
pub proof fn law_received_is_read<R: BinaryData>(version: u8, s: FrameState, b: Seq<u8>)
    ensures
        received::<R>(StreamState::Open { version, state: s }, b) == outcome::<R>(
            version,
            frame::feed(s, b),
        ),
    decreases b.len(),
{
    if b.len() > 0 {
        let rest = b.skip(1);
        match frame::step(s, b[0]) {
            Ok((t, None)) => {
                law_received_is_read::<R>(version, t, rest);
                let r = received::<R>(StreamState::Open { version, state: t }, rest);
                assert(Seq::<R::Model>::empty() + r.payloads =~= r.payloads);
            },
            Ok((t, Some(p))) => {
                law_received_is_read::<R>(version, t, rest);
                let tail = frame::feed(t, rest).packets;
                let all = seq![p] + tail;
                assert(all[0] == p);
                assert(all.skip(1) =~= tail);
            },
            Err(_) => {},
        }
    }
}

/// After the end nothing is received.
pub proof fn law_nothing_after_end<R: BinaryData>(version: Option<u8>, b: Seq<u8>)
    ensures
        received::<R>(StreamState::Ended { version }, b) == (Received::<R::Model> {
            state: StreamState::Ended { version },
            payloads: Seq::empty(),
            fault: None,
        }),
    decreases b.len(),
{
    if b.len() > 0 {
        law_nothing_after_end::<R>(version, b.skip(1));
        assert(Seq::<R::Model>::empty() + Seq::<R::Model>::empty() =~= Seq::empty());
    }
}

/// However a stream is cut into pieces, receiving them one after the other is receiving all
/// of it.
pub proof fn law_received_concat<R: BinaryData>(s: StreamState, a: Seq<u8>, b: Seq<u8>)
    ensures
        ({
            let first = received::<R>(s, a);
            let rest = received::<R>(first.state, b);
            received::<R>(s, a + b) == if first.fault is Some {
                first
            } else {
                Received {
                    state: rest.state,
                    payloads: first.payloads + rest.payloads,
                    fault: rest.fault,
                }
            }
        }),
    decreases a.len(),
{
    let rest = received::<R>(received::<R>(s, a).state, b);
    if a.len() == 0 {
        assert(a + b =~= b);
        assert(Seq::<R::Model>::empty() + rest.payloads =~= rest.payloads);
    } else {
        assert((a + b)[0] == a[0]);
        assert((a + b).skip(1) =~= a.skip(1) + b);
        let first = received_byte::<R>(s, a[0]);
        law_received_concat::<R>(first.state, a.skip(1), b);
        let mid = received::<R>(first.state, a.skip(1));
        assert(first.payloads + (mid.payloads + rest.payloads) =~= (first.payloads
            + mid.payloads) + rest.payloads);
    }
}

/// The packets of commands.
pub open spec fn packets<S: BinaryData>(msgs: Seq<S::Model>) -> Seq<Seq<u8>> {
    Seq::new(msgs.len(), |i: int| S::bytes(msgs[i]))
}

/// What is sent of commands: the version, and then a frame for each.
pub open spec fn sent<S: BinaryData>(version: u8, msgs: Seq<S::Model>) -> Seq<u8> {
    seq![version] + frame::frames(packets::<S>(msgs))
}

/// Whether commands can be sent: each is read back as it was written, and no packet is too
/// large.
pub open spec fn sendable<S: BinaryData>(msgs: Seq<S::Model>) -> bool {
    forall|i: int|
        0 <= i < msgs.len() ==> S::encodable(#[trigger] msgs[i]) && S::bytes(msgs[i]).len()
            <= frame::MAX_PACKET
}

/// The commands in the packets of commands, and in packets after them.
proof fn lemma_decoded<S: BinaryData>(msgs: Seq<S::Model>, more: Seq<Seq<u8>>)
    requires
        sendable::<S>(msgs),
    ensures
        decoded::<S>(packets::<S>(msgs) + more) == (
            msgs + decoded::<S>(more).0,
            decoded::<S>(more).1,
        ),
    decreases msgs.len(),
{
    let all = packets::<S>(msgs) + more;
    if msgs.len() == 0 {
        assert(all =~= more);
        assert(msgs + decoded::<S>(more).0 =~= decoded::<S>(more).0);
    } else {
        let tail = msgs.skip(1);
        assert(S::encodable(msgs[0]));
        frame::law_packet_round_trip::<S>(msgs[0]);
        assert(all[0] == S::bytes(msgs[0]));
        assert forall|i: int| 0 <= i < tail.len() implies S::encodable(#[trigger] tail[i])
            && S::bytes(tail[i]).len() <= frame::MAX_PACKET by {
            assert(tail[i] == msgs[i + 1]);
        }
        lemma_decoded::<S>(tail, more);
        assert(all.skip(1) =~= packets::<S>(tail) + more);
        assert(seq![msgs[0]] + (tail + decoded::<S>(more).0) =~= msgs + decoded::<S>(more).0);
    }
}

/// What is sent, up to the frames of the commands, is received.
proof fn lemma_sent<S: BinaryData>(version: u8, msgs: Seq<S::Model>, more: Seq<u8>)
    requires
        sendable::<S>(msgs),
    ensures
        received::<S>(StreamState::Version, sent::<S>(version, msgs) + more) == outcome::<S>(
            version,
            Fed {
                packets: packets::<S>(msgs) + frame::feed(frame::at_start(), more).packets,
                ..frame::feed(frame::at_start(), more)
            },
        ),
{
    let ps = packets::<S>(msgs);
    let body = frame::frames(ps) + more;
    let all = sent::<S>(version, msgs) + more;
    assert(all[0] == version);
    assert(all.skip(1) =~= body);
    assert forall|i: int| 0 <= i < ps.len() implies (#[trigger] ps[i]).len()
        <= frame::MAX_PACKET by {
        assert(S::encodable(msgs[i]));
    }
    frame::law_frames_round_trip(ps);
    frame::law_feed_concat(frame::at_start(), frame::frames(ps), more);
    law_received_is_read::<S>(version, frame::at_start(), body);
    let r = received::<S>(StreamState::Open { version, state: frame::at_start() }, body);
    assert(Seq::<S::Model>::empty() + r.payloads =~= r.payloads);
}

/// The other side learns the version, and handles exactly the commands that were sent, each
/// once and in order.
pub proof fn law_stream<S: BinaryData>(version: u8, msgs: Seq<S::Model>)
    requires
        sendable::<S>(msgs),
    ensures
        received::<S>(StreamState::Version, sent::<S>(version, msgs)) == (Received::<S::Model> {
            state: StreamState::Open { version, state: frame::at_start() },
            payloads: msgs,
            fault: None,
        }),
{
    lemma_sent::<S>(version, msgs, Seq::empty());
    lemma_decoded::<S>(msgs, Seq::empty());
    assert(sent::<S>(version, msgs) + Seq::<u8>::empty() =~= sent::<S>(version, msgs));
    assert(msgs + Seq::<S::Model>::empty() =~= msgs);
}

/// Whether bytes, between two frames, end a stream: they are no frame, or the frame of a
/// packet that holds no command.
pub open spec fn spoils<R: BinaryData>(b: Seq<u8>) -> bool {
    ||| frame::feed(frame::at_start(), b).error is Some && frame::feed(
        frame::at_start(),
        b,
    ).packets.len() == 0
    ||| exists|p: Seq<u8>|
        p.len() <= frame::MAX_PACKET && b == #[trigger] frame::frame(p) && R::parse(p) is Err
}

/// Bytes after those that cannot be read change nothing.
proof fn lemma_spoilt(s: FrameState, a: Seq<u8>, b: Seq<u8>)
    requires
        frame::feed(s, a).error is Some,
    ensures
        frame::feed(s, a + b).error == frame::feed(s, a).error,
        frame::feed(s, a + b).packets == frame::feed(s, a).packets,
    decreases a.len(),
{
    assert((a + b)[0] == a[0]);
    assert((a + b).skip(1) =~= a.skip(1) + b);
    match frame::step(s, a[0]) {
        Ok((t, _)) => {
            lemma_spoilt(t, a.skip(1), b);
        },
        Err(_) => {},
    }
}

/// Bytes that are no frame, and a packet that holds no command, end a stream: the commands
/// before them are handled, and nothing of them or after them.
pub proof fn law_stream_ends<S: BinaryData>(
    version: u8,
    msgs: Seq<S::Model>,
    bad: Seq<u8>,
    more: Seq<u8>,
)
    requires
        sendable::<S>(msgs),
        spoils::<S>(bad),
    ensures
        ({
            let r = received::<S>(StreamState::Version, sent::<S>(version, msgs) + (bad + more));
            &&& r.state == (StreamState::Ended { version: Some(version) })
            &&& r.payloads == msgs
            &&& r.fault is Some
        }),
{
    let start = frame::at_start();
    lemma_sent::<S>(version, msgs, bad + more);
    let f = frame::feed(start, bad + more);
    lemma_decoded::<S>(msgs, f.packets);
    if frame::feed(start, bad).error is Some && frame::feed(start, bad).packets.len() == 0 {
        lemma_spoilt(start, bad, more);
    } else {
        let p = choose|p: Seq<u8>|
            p.len() <= frame::MAX_PACKET && bad == #[trigger] frame::frame(p) && S::parse(
                p,
            ) is Err;
        frame::law_frame_round_trip(p);
        frame::law_feed_concat(start, bad, more);
        assert(f.packets[0] == p);
    }
    assert(decoded::<S>(f.packets).0 =~= Seq::empty());
    assert(msgs + Seq::<S::Model>::empty() =~= msgs);
}

/// A length that is too large ends a stream.
pub proof fn law_too_large<R: BinaryData>(len: nat)
    requires
        frame::MAX_PACKET < len < 0x1_0000_0000,
    ensures
        spoils::<R>(frame::header(len)),
        frame::feed(frame::at_start(), frame::header(len)).error == Some(FrameError::TooLarge),
{
    bin::lemma_pow128_limits();
    assert(bin::pow128(0) == 1);
    assert(len * bin::pow128(0) == len);
    frame::lemma_feed_too_large(0, 0, len);
}

/// A length of more than five bytes ends a stream.
pub proof fn law_endless_length<R: BinaryData>(b: Seq<u8>)
    requires
        b.len() == 5,
        forall|i: int| 0 <= i < 5 ==> #[trigger] b[i] >= 128,
    ensures
        spoils::<R>(b),
        frame::feed(frame::at_start(), b).error == Some(FrameError::InvalidLength),
{
    reveal_with_fuel(frame::feed, 6);
    let c = b.skip(1);
    let d = c.skip(1);
    let e = d.skip(1);
    let f = e.skip(1);
    assert(b[0] >= 128 && b[1] >= 128 && b[2] >= 128 && b[3] >= 128 && b[4] >= 128);
    assert(c[0] == b[1] && d[0] == b[2] && e[0] == b[3] && f[0] == b[4]);
}

/// A packet that holds no command ends a stream.
pub proof fn law_no_command<R: BinaryData>(packet: Seq<u8>)
    requires
        packet.len() <= frame::MAX_PACKET,
        R::parse(packet) is Err,
    ensures
        spoils::<R>(frame::frame(packet)),
{
}

/// Receives the commands of one side of a connection, as the bytes come in.
pub struct Incoming {
    version: Option<u8>,
    reader: FrameReader,
    ended: bool,
}

impl View for Incoming {
    type V = StreamState;

    closed spec fn view(&self) -> StreamState {
        if self.ended {
            StreamState::Ended { version: self.version }
        } else {
            match self.version {
                Some(version) => StreamState::Open { version, state: self.reader@ },
                None => StreamState::Version,
            }
        }
    }
}

/// The most bytes that can be taken at once.
pub open spec fn most(s: StreamState) -> int {
    match s {
        StreamState::Version => 1,
        StreamState::Open { state, .. } => match state {
            FrameState::Length { .. } => 1,
            FrameState::Body { len, got } => len - got.len(),
        },
        StreamState::Ended { .. } => 0,
    }
}

/// The version that is known.
pub open spec fn version_of(s: StreamState) -> Option<u8> {
    match s {
        StreamState::Version => None,
        StreamState::Open { version, .. } => Some(version),
        StreamState::Ended { version } => version,
    }
}

/// What is received of the next bytes; none of them means that the connection has ended.
pub open spec fn taken<R: BinaryData>(s: StreamState, data: Seq<u8>) -> Received<R::Model> {
    if data.len() == 0 {
        Received {
            state: StreamState::Ended { version: version_of(s) },
            payloads: Seq::empty(),
            fault: Some(StreamError::Frame(FrameError::Eof)),
        }
    } else {
        received::<R>(s, data)
    }
}

impl Incoming {
    /// The states that a receiver can be in.
    pub closed spec fn wf(&self) -> bool {
        !self.ended ==> self.reader.wf() && (self.version is None ==> self.reader@
            == frame::at_start())
    }

    /// A receiver at the beginning: the version is known, or it is to come first.
    pub fn new(version: Option<u8>) -> (res: Incoming)
        ensures
            res.wf(),
            res@ == (match version {
                Some(version) => StreamState::Open { version, state: frame::at_start() },
                None => StreamState::Version,
            }),
    {
        Incoming { version, reader: FrameReader::new(), ended: false }
    }

    /// The version of the other side, once it is known.
    pub fn version(&self) -> (res: Option<u8>)
        ensures
            res == version_of(self@),
    {
        self.version
    }

    /// Whether nothing more is received.
    pub fn is_ended(&self) -> (res: bool)
        ensures
            res == self@ is Ended,
    {
        self.ended
    }

    /// What is to be received next: one byte of the version or of a length, or up to so many
    /// bytes of a packet.
    pub fn want(&self) -> (res: Want)
        requires
            self.wf(),
            !(self@ is Ended),
        ensures
            match res {
                Want::Byte => most(self@) == 1 && !(self@ matches StreamState::Open { state, .. }
                    && state is Body),
                Want::Body(n) => most(self@) == n && n > 0 && (self@ matches StreamState::Open {
                    state,
                    ..
                } && state is Body),
            },
    {
        if self.version.is_none() {
            return Want::Byte;
        }
        self.reader.want()
    }

    /// Takes the next bytes, and gives the command that they complete, if any; no bytes mean
    /// that the connection has ended.
    pub fn take<R: BinaryData>(&mut self, data: &[u8]) -> (res: Result<Option<R>, StreamError>)
        requires
            old(self).wf(),
            !(old(self)@ is Ended),
            data@.len() <= most(old(self)@),
        ensures
            final(self).wf(),
            final(self)@ == taken::<R>(old(self)@, data@).state,
            match taken::<R>(old(self)@, data@).fault {
                Some(e) => res matches Err(f) && f == e,
                None => res matches Ok(p) && match p {
                    Some(v) => taken::<R>(old(self)@, data@).payloads == seq![v.model()],
                    None => taken::<R>(old(self)@, data@).payloads.len() == 0,
                },
            },
    {
        if data.len() == 0 {
            self.ended = true;
            return Err(StreamError::Frame(FrameError::Eof));
        }
        let version: u8 = match self.version {
            Some(version) => version,
            None => {
                proof {
                    reveal_with_fuel(received, 2);
                    assert(data@.skip(1) =~= Seq::empty());
                    assert(Seq::<R::Model>::empty() + Seq::<R::Model>::empty() =~= Seq::empty());
                }
                self.version = Some(data[0]);
                return Ok(None);
            },
        };
        let ghost state = self.reader@;
        proof {
            law_received_is_read::<R>(version, state, data@);
        }
        let step: Result<Option<Vec<u8>>, FrameError> = match self.reader.want() {
            Want::Byte => {
                proof {
                    reveal_with_fuel(frame::feed, 2);
                    assert(data@.skip(1) =~= Seq::empty());
                }
                self.reader.byte(data[0])
            },
            Want::Body(_) => {
                proof {
                    if let FrameState::Body { len, got } = state {
                        frame::law_chunk_is_bytes(len, got, data@);
                    }
                }
                self.reader.chunk(data)
            },
        };
        match step {
            Ok(Some(packet)) => {
                let ghost one = seq![packet@];
                proof {
                    reveal_with_fuel(decoded, 2);
                    assert(frame::feed(state, data@).packets =~= one);
                    assert(one.skip(1) =~= Seq::empty());
                }
                match frame::decode_packet::<R>(packet.as_slice()) {
                    Ok(v) => {
                        assert(seq![v.model()] + Seq::<R::Model>::empty() =~= seq![v.model()]);
                        Ok(Some(v))
                    },
                    Err(e) => {
                        self.ended = true;
                        Err(StreamError::Packet(e))
                    },
                }
            },
            Ok(None) => Ok(None),
            Err(e) => {
                self.ended = true;
                Err(StreamError::Frame(e))
            },
        }
    }
}

/// A connection that gives nothing more has ended, with nothing received and the version that it
/// had; one that has ended stays as it is.
pub proof fn law_ends<R: BinaryData>(s: StreamState, version: u8, f: FrameState, data: Seq<u8>)
    ensures
        taken::<R>(s, Seq::empty()).payloads.len() == 0,
        taken::<R>(s, Seq::empty()).fault == Some(StreamError::Frame(FrameError::Eof)),
        taken::<R>(StreamState::Version, Seq::empty()).state == (StreamState::Ended {
            version: None,
        }),
        taken::<R>(StreamState::Open { version, state: f }, Seq::empty()).state == (
        StreamState::Ended { version: Some(version) }),
        data.len() > 0 && s is Ended ==> taken::<R>(s, data).payloads.len() == 0 && taken::<R>(
            s,
            data,
        ).state == s && taken::<R>(s, data).fault is None,
    decreases data.len(),
{
    if data.len() > 0 && s is Ended {
        law_ends::<R>(s, version, f, data.skip(1));
        assert(received::<R>(s, data.skip(1)).payloads.len() == 0);
        assert(received_byte::<R>(s, data[0]).payloads + received::<R>(s, data.skip(1)).payloads
            =~= Seq::empty());
    }
}

} // verus!
