//! Packets and the frames that carry them over a byte stream.
//!
//! A frame is the length of a packet, in LEB128, and then the bytes of the packet.
use crate::bin;
use crate::bin::{BinError, BinaryData, BinaryReader};
use vstd::prelude::*;

verus! {

/// Seconds between two pings of a client.
pub const HEARTBEAT_INTERVAL: u64 = 3;

/// Seconds that a client waits for the answer to a ping.
pub const HEARTBEAT_TIMEOUT: u64 = 2;

/// Seconds of silence after which the server takes a connection for lost.
pub const HEARTBEAT_DISCONNECT_TIMEOUT: u64 = 30;

/// The largest packet that is accepted: 512 MiB.
pub const MAX_PACKET: u32 = 0x2000_0000;

/// Appends the encoding of `payload`.
pub fn encode_packet<T: BinaryData>(payload: &T, vec: &mut Vec<u8>)
    ensures
        final(vec)@ == old(vec)@ + T::bytes(payload.model()),
{
    payload.write_binary(vec)
}

/// Reads a value from the front of `data`; what follows it is ignored.
pub fn decode_packet<T: BinaryData>(data: &[u8]) -> (res: Result<T, BinError>)
    ensures
        match T::parse(data@) {
            Ok((m, _)) => res matches Ok(v) && v.model() == m,
            Err(e) => res matches Err(f) && f == e,
        },
{
    let mut r = BinaryReader::new(data);
    r.read()
}

/// What decoding a packet gives back of what encoding it wrote.
pub proof fn law_packet_round_trip<T: BinaryData>(m: T::Model)
    requires
        T::encodable(m),
    ensures
        T::parse(T::bytes(m)) == Ok::<(T::Model, int), BinError>((m, T::bytes(m).len() as int)),
{
    T::lemma_round_trip(m, Seq::empty());
    assert(T::bytes(m) + Seq::<u8>::empty() =~= T::bytes(m));
}

/// Why a stream of frames cannot be read on.
#[derive(Debug, Clone, Copy, PartialEq, Eq, Structural)]
pub enum FrameError {
    /// A length took more than five bytes.
    InvalidLength,
    /// A packet would be larger than [`MAX_PACKET`].
    TooLarge,
    /// The stream ended inside a packet.
    Eof,
}

impl FrameError {
    /// The text of an error.
    pub open spec fn text(self) -> Seq<char> {
        match self {
            FrameError::InvalidLength => "invalid length"@,
            FrameError::TooLarge => "data packet too large"@,
            FrameError::Eof => "eof while reading packet"@,
        }
    }

    /// The text of this error.
    pub fn message(&self) -> (res: String)
        ensures
            res@ == self.text(),
    {
        match self {
            FrameError::InvalidLength => "invalid length".to_owned(),
            FrameError::TooLarge => "data packet too large".to_owned(),
            FrameError::Eof => "eof while reading packet".to_owned(),
        }
    }
}

/// The header of a packet of `len` bytes; only the low 32 bits of the length are sent.
pub open spec fn header(len: nat) -> Seq<u8> {
    bin::uleb_bytes(len % 0x1_0000_0000)
}

/// The frame of a packet.
pub open spec fn frame(packet: Seq<u8>) -> Seq<u8> {
    header(packet.len()) + packet
}

/// The frame of the packet of `payload`.
pub fn encode_frame<S: BinaryData>(payload: &S) -> (res: Vec<u8>)
    ensures
        res@ == frame(S::bytes(payload.model())),
{
    let mut buffer: Vec<u8> = Vec::new();
    encode_packet(payload, &mut buffer);
    assert(buffer@ =~= S::bytes(payload.model()));
    let mut res: Vec<u8> = Vec::new();
    bin::write_uleb(buffer.len() as u64 % 0x1_0000_0000, &mut res);
    assert(res@ =~= header(buffer@.len()));
    res.append(&mut buffer);
    res
}

/// Where a reader of frames is.
#[verifier::ext_equal]
pub enum FrameState {
    /// In a length, after some groups of it.
    Length { value: int, groups: nat },
    /// In a packet of a known length, after some bytes of it.
    Body { len: int, got: Seq<u8> },
}

/// The state between two frames.
pub open spec fn at_start() -> FrameState {
    FrameState::Length { value: 0, groups: 0 }
}

/// What one byte does: the next state and the packet that it completes, if any.
pub open spec fn step(s: FrameState, b: u8) -> Result<(FrameState, Option<Seq<u8>>), FrameError> {
    match s {
        FrameState::Length { value, groups } => {
            let sum = (value + (b % 128) * bin::pow128(groups)) % 0x1_0000_0000;
            if b >= 128 {
                if groups + 1 >= 5 {
                    Err(FrameError::InvalidLength)
                } else {
                    Ok((FrameState::Length { value: sum, groups: groups + 1 }, None))
                }
            } else if sum > MAX_PACKET {
                Err(FrameError::TooLarge)
            } else if sum == 0 {
                Ok((at_start(), Some(Seq::empty())))
            } else {
                Ok((FrameState::Body { len: sum, got: Seq::empty() }, None))
            }
        },
        FrameState::Body { len, got } => if got.len() + 1 >= len {
            Ok((at_start(), Some(got.push(b))))
        } else {
            Ok((FrameState::Body { len, got: got.push(b) }, None))
        },
    }
}

/// Reads frames from a stream, as the bytes come in.
pub struct FrameReader {
    value: u32,
    groups: u8,
    len: Option<u32>,
    buffer: Vec<u8>,
}

/// What a [`FrameReader`] wants next.
#[derive(Debug, Clone, Copy, PartialEq, Eq, Structural)]
pub enum Want {
    /// One byte of a length.
    Byte,
    /// Up to this many bytes of a packet.
    Body(u32),
}

impl View for FrameReader {
    type V = FrameState;

    closed spec fn view(&self) -> FrameState {
        match self.len {
            Some(len) => FrameState::Body { len: len as int, got: self.buffer@ },
            None => FrameState::Length { value: self.value as int, groups: self.groups as nat },
        }
    }
}

impl FrameReader {
    /// The states that a reader can be in.
    pub open spec fn wf(&self) -> bool {
        match self@ {
            FrameState::Length { value, groups } => groups < 5,
            FrameState::Body { len, got } => got.len() < len <= MAX_PACKET,
        }
    }

    /// A reader between two frames.
    pub fn new() -> (res: FrameReader)
        ensures
            res.wf(),
            res@ == at_start(),
    {
        FrameReader { value: 0, groups: 0, len: None, buffer: Vec::new() }
    }

    /// What is to be read next.
    pub fn want(&self) -> (res: Want)
        requires
            self.wf(),
        ensures
            res == (match self@ {
                FrameState::Length { .. } => Want::Byte,
                FrameState::Body { len, got } => Want::Body((len - got.len()) as u32),
            }),
    {
        match self.len {
            Some(len) => Want::Body(len - self.buffer.len() as u32),
            None => Want::Byte,
        }
    }

    /// Takes one byte of a length.
    pub fn byte(&mut self, b: u8) -> (res: Result<Option<Vec<u8>>, FrameError>)
        requires
            old(self).wf(),
            old(self)@ is Length,
        ensures
            match step(old(self)@, b) {
                Ok((next, packet)) => {
                    &&& final(self).wf()
                    &&& final(self)@ == next
                    &&& res matches Ok(p)
                    &&& match packet {
                        Some(q) => p matches Some(v) && v@ == q,
                        None => p is None,
                    }
                },
                Err(e) => res matches Err(f) && f == e,
            },
    {
        let weight: u64 = match self.groups {
            0 => 1,
            1 => 0x80,
            2 => 0x4000,
            3 => 0x20_0000,
            _ => 0x1000_0000,
        };
        proof {
            reveal_with_fuel(bin::pow128, 6);
            assert(weight == bin::pow128(self.groups as nat));
        }
        let low: u64 = (b % 128) as u64;
        assert(low * weight <= 127 * 0x1000_0000) by (nonlinear_arith)
            requires
                low <= 127,
                weight <= 0x1000_0000,
        ;
        assert(low * weight >= 0) by (nonlinear_arith);
        let sum: u64 = (self.value as u64 + low * weight) % 0x1_0000_0000;
        if b >= 128 {
            if self.groups + 1 >= 5 {
                return Err(FrameError::InvalidLength);
            }
            self.value = sum as u32;
            self.groups = self.groups + 1;
            return Ok(None);
        }
        if sum > MAX_PACKET as u64 {
            return Err(FrameError::TooLarge);
        }
        self.value = 0;
        self.groups = 0;
        if sum == 0 {
            let packet: Vec<u8> = Vec::new();
            assert(packet@ =~= Seq::empty());
            return Ok(Some(packet));
        }
        self.len = Some(sum as u32);
        self.buffer = Vec::new();
        assert(self@ =~= (FrameState::Body { len: sum as int, got: Seq::empty() }));
        Ok(None)
    }

    /// Takes the next bytes of a packet; none of them means that the stream has ended.
    pub fn chunk(&mut self, data: &[u8]) -> (res: Result<Option<Vec<u8>>, FrameError>)
        requires
            old(self).wf(),
            old(self)@ matches FrameState::Body { len, got } && got.len() + data@.len() <= len,
        ensures
            match old(self)@ {
                FrameState::Body { len, got } => if data@.len() == 0 {
                    res matches Err(e) && e == FrameError::Eof
                } else {
                    &&& final(self).wf()
                    &&& res matches Ok(packet)
                    &&& if got.len() + data@.len() == len {
                        final(self)@ == at_start() && (packet matches Some(p) && p@ == got + data@)
                    } else {
                        final(self)@ == (FrameState::Body { len, got: got + data@ })
                            && packet is None
                    }
                },
                FrameState::Length { .. } => true,
            },
    {
        if data.len() == 0 {
            return Err(FrameError::Eof);
        }
        let len: u32 = match self.len {
            Some(len) => len,
            None => {
                return Ok(None);
            },
        };
        self.buffer.extend_from_slice(data);
        assert(self.buffer@ =~= old(self).buffer@ + data@);
        if self.buffer.len() < len as usize {
            return Ok(None);
        }
        let mut packet: Vec<u8> = Vec::new();
        packet.append(&mut self.buffer);
        assert(packet@ =~= old(self).buffer@ + data@);
        self.len = None;
        self.value = 0;
        self.groups = 0;
        Ok(Some(packet))
    }
}

/// What comes of reading bytes: the state after them, the packets that they completed,
/// and the error that ended the reading, if one did.
#[verifier::ext_equal]
pub struct Fed {
    pub state: FrameState,
    pub packets: Seq<Seq<u8>>,
    pub error: Option<FrameError>,
}

/// What reading `b`, byte by byte, does.
pub open spec fn feed(s: FrameState, b: Seq<u8>) -> Fed
    decreases b.len(),
{
    if b.len() == 0 {
        Fed { state: s, packets: Seq::empty(), error: None }
    } else {
        match step(s, b[0]) {
            Ok((t, None)) => feed(t, b.skip(1)),
            Ok((t, Some(p))) => {
                let rest = feed(t, b.skip(1));
                Fed { state: rest.state, packets: seq![p] + rest.packets, error: rest.error }
            },
            Err(e) => Fed { state: s, packets: Seq::empty(), error: Some(e) },
        }
    }
}

/// Reading bytes and then more bytes is reading all of them.
pub proof fn law_feed_concat(s: FrameState, a: Seq<u8>, b: Seq<u8>)
    requires
        feed(s, a).error is None,
    ensures
        feed(s, a + b) == (Fed {
            state: feed(feed(s, a).state, b).state,
            packets: feed(s, a).packets + feed(feed(s, a).state, b).packets,
            error: feed(feed(s, a).state, b).error,
        }),
    decreases a.len(),
{
    if a.len() == 0 {
        assert(a + b =~= b);
        assert(feed(s, a).packets + feed(s, b).packets =~= feed(s, b).packets);
    } else {
        assert((a + b).skip(1) =~= a.skip(1) + b);
        assert((a + b)[0] == a[0]);
        match step(s, a[0]) {
            Ok((t, None)) => {
                law_feed_concat(t, a.skip(1), b);
            },
            Ok((t, Some(p))) => {
                law_feed_concat(t, a.skip(1), b);
                let u = feed(t, a.skip(1));
                assert(seq![p] + (u.packets + feed(u.state, b).packets) =~= (seq![p] + u.packets)
                    + feed(u.state, b).packets);
            },
            Err(_) => {},
        }
    }
}

/// However the bytes of a packet are cut into chunks, each chunk does what its bytes do
/// one by one.
pub proof fn law_chunk_is_bytes(len: int, got: Seq<u8>, data: Seq<u8>)
    requires
        data.len() > 0,
        got.len() + data.len() <= len,
    ensures
        feed(FrameState::Body { len, got }, data) == (if got.len() + data.len() == len {
            Fed { state: at_start(), packets: seq![got + data], error: None }
        } else {
            Fed {
                state: FrameState::Body { len, got: got + data },
                packets: Seq::empty(),
                error: None,
            }
        }),
    decreases data.len(),
{
    let s = FrameState::Body { len, got };
    let rest = data.skip(1);
    assert(got.push(data[0]) + rest =~= got + data);
    if rest.len() > 0 {
        law_chunk_is_bytes(len, got.push(data[0]), rest);
    } else {
        assert(got.push(data[0]) =~= got + data);
        let next = step(s, data[0])->Ok_0.0;
        assert(feed(next, rest) == (Fed { state: next, packets: Seq::empty(), error: None }));
        assert(seq![got + data] + Seq::<Seq<u8>>::empty() =~= seq![got + data]);
    }
}

/// Reading the rest of a length.
proof fn lemma_feed_length(value: int, groups: nat, v: nat)
    requires
        groups < 5,
        0 <= value < bin::pow128(groups),
        v < bin::pow128((5 - groups) as nat),
        value + v * bin::pow128(groups) <= MAX_PACKET,
        value + v * bin::pow128(groups) > 0,
    ensures
        feed(FrameState::Length { value, groups }, bin::uleb_bytes(v)) == (Fed {
            state: FrameState::Body {
                len: value + v * bin::pow128(groups),
                got: Seq::empty(),
            },
            packets: Seq::empty(),
            error: None,
        }),
    decreases v,
{
    let s = FrameState::Length { value, groups };
    let w = bin::pow128(groups) as int;
    let b = bin::uleb_bytes(v);
    bin::lemma_pow128_mono(groups, groups);
    assert(feed(FrameState::Body { len: value + v * w, got: Seq::empty() }, Seq::empty())
        == (Fed {
        state: FrameState::Body { len: value + v * w, got: Seq::empty() },
        packets: Seq::empty(),
        error: None,
    }));
    if v < 128 {
        assert(b[0] == v && b[0] % 128 == v);
        assert(b.skip(1) =~= Seq::empty());
    } else {
        let low = (v % 128) as int;
        let high = (v / 128) as int;
        assert(b[0] == low + 128 && b[0] % 128 == low);
        assert(b.skip(1) =~= bin::uleb_bytes(v / 128));
        assert(bin::pow128(groups + 1) == 128 * w);
        assert(value + low * w < 128 * w) by (nonlinear_arith)
            requires
                value < w,
                low <= 127,
                w >= 1,
        ;
        assert(low * w >= 0) by (nonlinear_arith)
            requires
                low >= 0,
                w >= 1,
        ;
        assert((value + low * w) + high * (128 * w) == value + v * w) by (nonlinear_arith)
            requires
                v == low + 128 * high,
        ;
        assert(high * (128 * w) >= 128 * w) by (nonlinear_arith)
            requires
                high >= 1,
                w >= 1,
        ;
        if groups == 4 {
            reveal_with_fuel(bin::pow128, 2);
        }
        assert(bin::pow128((5 - groups) as nat) == 128 * bin::pow128((4 - groups) as nat));
        lemma_feed_length(value + low * w, groups + 1, (v / 128) as nat);
    }
}

/// Reading the rest of a length that is too large.
pub proof fn lemma_feed_too_large(value: int, groups: nat, v: nat)
    requires
        groups < 5,
        0 <= value < bin::pow128(groups),
        v < bin::pow128((5 - groups) as nat),
        MAX_PACKET < value + v * bin::pow128(groups) < 0x1_0000_0000,
    ensures
        ({
            let f = feed(FrameState::Length { value, groups }, bin::uleb_bytes(v));
            f.error == Some(FrameError::TooLarge) && f.packets == Seq::<Seq<u8>>::empty()
        }),
    decreases v,
{
    let s = FrameState::Length { value, groups };
    let w = bin::pow128(groups) as int;
    let b = bin::uleb_bytes(v);
    bin::lemma_pow128_mono(groups, groups);
    if v < 128 {
        assert(b[0] == v && b[0] % 128 == v);
        assert(b.skip(1) =~= Seq::empty());
    } else {
        let low = (v % 128) as int;
        let high = (v / 128) as int;
        assert(b[0] == low + 128 && b[0] % 128 == low);
        assert(b.skip(1) =~= bin::uleb_bytes(v / 128));
        assert(bin::pow128(groups + 1) == 128 * w);
        assert(value + low * w < 128 * w) by (nonlinear_arith)
            requires
                value < w,
                low <= 127,
                w >= 1,
        ;
        assert(low * w >= 0) by (nonlinear_arith)
            requires
                low >= 0,
                w >= 1,
        ;
        assert((value + low * w) + high * (128 * w) == value + v * w) by (nonlinear_arith)
            requires
                v == low + 128 * high,
        ;
        assert(high * (128 * w) >= 128 * w) by (nonlinear_arith)
            requires
                high >= 1,
                w >= 1,
        ;
        if groups == 4 {
            reveal_with_fuel(bin::pow128, 2);
        }
        assert(bin::pow128((5 - groups) as nat) == 128 * bin::pow128((4 - groups) as nat));
        lemma_feed_too_large(value + low * w, groups + 1, (v / 128) as nat);
    }
}

/// A frame, read between two frames, gives its packet and leaves the reader between two
/// frames again.
pub proof fn law_frame_round_trip(packet: Seq<u8>)
    requires
        packet.len() <= MAX_PACKET,
    ensures
        feed(at_start(), frame(packet)) == (Fed {
            state: at_start(),
            packets: seq![packet],
            error: None,
        }),
{
    let n = packet.len();
    let h = header(n);
    assert(n % 0x1_0000_0000 == n);
    if n == 0 {
        assert(packet =~= Seq::empty());
        assert(frame(packet) =~= seq![0u8]);
        let b = frame(packet);
        assert(b.skip(1) =~= Seq::empty());
        assert(step(at_start(), 0u8) == Ok::<(FrameState, Option<Seq<u8>>), FrameError>(
            (at_start(), Some(Seq::empty())),
        )) by {
            assert(0 * bin::pow128(0) == 0);
        }
        assert(feed(at_start(), Seq::empty()).packets =~= Seq::empty());
        assert(seq![Seq::<u8>::empty()] + Seq::<Seq<u8>>::empty() =~= seq![packet]);
    } else {
        bin::lemma_pow128_limits();
        assert(bin::pow128(0) == 1);
        assert(n * bin::pow128(0) == n);
        lemma_feed_length(0, 0, n);
        law_feed_concat(at_start(), h, packet);
        law_chunk_is_bytes(n as int, Seq::empty(), packet);
        assert(Seq::<u8>::empty() + packet =~= packet);
        assert(Seq::<Seq<u8>>::empty() + seq![packet] =~= seq![packet]);
    }
}

/// The frames of packets, one after the other.
pub open spec fn frames(packets: Seq<Seq<u8>>) -> Seq<u8>
    decreases packets.len(),
{
    if packets.len() == 0 {
        Seq::empty()
    } else {
        frame(packets[0]) + frames(packets.skip(1))
    }
}

/// Packets that are sent one after the other arrive whole and in order.
pub proof fn law_frames_round_trip(packets: Seq<Seq<u8>>)
    requires
        forall|i: int| 0 <= i < packets.len() ==> (#[trigger] packets[i]).len() <= MAX_PACKET,
    ensures
        feed(at_start(), frames(packets)) == (Fed { state: at_start(), packets, error: None }),
    decreases packets.len(),
{
    if packets.len() == 0 {
        assert(packets =~= Seq::empty());
    } else {
        let tail = packets.skip(1);
        assert forall|i: int| 0 <= i < tail.len() implies (#[trigger] tail[i]).len()
            <= MAX_PACKET by {
            assert(tail[i] == packets[i + 1]);
        }
        law_frames_round_trip(tail);
        law_frame_round_trip(packets[0]);
        law_feed_concat(at_start(), frame(packets[0]), frames(tail));
        assert(seq![packets[0]] + tail =~= packets);
    }
}

/// A packet is sent after its length, in seven bits to a byte, and nothing else is added.
pub proof fn law_frame_layout(packet: Seq<u8>)
    requires
        packet.len() < 128,
    ensures
        frame(packet) == seq![packet.len() as u8] + packet,
{
    assert(frame(packet) =~= seq![packet.len() as u8] + packet);
}

/// The longest packet, what is done with longer ones, and what the faults are called.
pub proof fn law_limits(groups: nat, value: int, b: u8)
    requires
        b < 128,
    ensures
        MAX_PACKET == 512 * 1024 * 1024,
        FrameError::InvalidLength.text() == "invalid length"@,
        FrameError::TooLarge.text() == "data packet too large"@,
        FrameError::Eof.text() == "eof while reading packet"@,
        (value + b * bin::pow128(groups)) % 0x1_0000_0000 > 512 * 1024 * 1024 ==> step(
            FrameState::Length { value, groups },
            b,
        ) == Err::<(FrameState, Option<Seq<u8>>), FrameError>(FrameError::TooLarge),
        0 < (value + b * bin::pow128(groups)) % 0x1_0000_0000 <= 512 * 1024 * 1024 ==> step(
            FrameState::Length { value, groups },
            b,
        ) is Ok,
{
}

} // verus!
