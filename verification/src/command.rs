//! The commands that client and server exchange.
//!
//! A floating point number is held as the bits of its IEEE encoding: the rules of the
//! service pass such numbers on and never compute with them.
use crate::bin;
use crate::bin::{BinError, BinaryData, BinaryReader};
use crate::table::{IdTable, TableKey};
use std::sync::Arc;
use vstd::prelude::*;
use vstd::std_specs::convert::{FromSpecImpl, TryFromSpecImpl};
use vstd::string::*;
use vstd::utf8::*;

verus! {

/// A position on the screen: two 16-bit floats, each as its bits.
#[derive(Debug, Clone, Copy, PartialEq, Eq, Structural)]
pub struct CompactPos {
    pub x: u16,
    pub y: u16,
}

impl CompactPos {
    /// The position with the given bits.
    pub fn new(x: u16, y: u16) -> (res: CompactPos)
        ensures
            res == (CompactPos { x, y }),
    {
        CompactPos { x, y }
    }

    /// The bits of the horizontal position.
    pub fn x(&self) -> (res: u16)
        ensures
            res == self.x,
    {
        self.x
    }

    /// The bits of the vertical position.
    pub fn y(&self) -> (res: u16)
        ensures
            res == self.y,
    {
        self.y
    }
}

impl BinaryData for CompactPos {
    type Model = CompactPos;

    open spec fn model(&self) -> CompactPos {
        *self
    }

    open spec fn encodable(m: CompactPos) -> bool {
        true
    }

    open spec fn bytes(m: CompactPos) -> Seq<u8> {
        <(u16, u16) as BinaryData>::bytes((m.x, m.y))
    }

    open spec fn parse(b: Seq<u8>) -> Result<(CompactPos, int), BinError> {
        match <(u16, u16) as BinaryData>::parse(b) {
            Ok((p, n)) => Ok((CompactPos { x: p.0, y: p.1 }, n)),
            Err(e) => Err(e),
        }
    }

    fn read_binary(r: &mut BinaryReader<'_>) -> (res: Result<CompactPos, BinError>) {
        match <(u16, u16) as BinaryData>::read_binary(r) {
            Ok((x, y)) => Ok(CompactPos { x, y }),
            Err(e) => Err(e),
        }
    }

    fn write_binary(&self, out: &mut Vec<u8>) {
        bin::write2(&self.x, &self.y, out);
    }

    proof fn lemma_round_trip(m: CompactPos, rest: Seq<u8>) {
        reveal(bin::pair_encodable);
        <(u16, u16) as BinaryData>::lemma_round_trip((m.x, m.y), rest);
    }

    proof fn lemma_parse_len(b: Seq<u8>) {
        <(u16, u16) as BinaryData>::lemma_parse_len(b);
    }
}

/// A text whose encoding takes at most `N` bytes on the wire.
#[derive(Debug, PartialEq, Eq, Hash)]
pub struct Varchar<const N: usize>(String);

impl<const N: usize> View for Varchar<N> {
    type V = Seq<char>;

    closed spec fn view(&self) -> Seq<char> {
        self.0@
    }
}

impl<const N: usize> Clone for Varchar<N> {
    fn clone(&self) -> (res: Self)
        ensures
            res == *self,
    {
        Varchar(self.0.clone())
    }
}

impl<const N: usize> TryFrom<String> for Varchar<N> {
    type Error = BinError;

    fn try_from(value: String) -> (res: Result<Self, BinError>)
        ensures
            encode_utf8(value@).len() > N <==> res is Err,
            res matches Ok(v) ==> v@ == value@,
            res matches Err(e) ==> e == BinError::StringTooLong,
    {
        if value.as_str().as_bytes().len() > N {
            return Err(BinError::StringTooLong);
        }
        Ok(Varchar(value))
    }
}

impl<const N: usize> TryFromSpecImpl<String> for Varchar<N> {
    open spec fn obeys_try_from_spec() -> bool {
        true
    }

    closed spec fn try_from_spec(value: String) -> Result<Self, BinError> {
        if encode_utf8(value@).len() > N {
            Err(BinError::StringTooLong)
        } else {
            Ok(Varchar(value))
        }
    }
}

impl<const N: usize> Varchar<N> {
    /// The text.
    pub fn into_inner(self) -> (res: String)
        ensures
            res@ == self@,
    {
        self.0
    }

    /// A copy of the text.
    pub fn to_string(&self) -> (res: String)
        ensures
            res@ == self@,
    {
        self.0.clone()
    }
}

/// The bounded text at the front of `b`.
#[verifier::opaque]
pub open spec fn parse_varchar(b: Seq<u8>, bound: nat) -> Result<(Seq<char>, int), BinError> {
    match bin::parse_uleb(b) {
        Ok((len, n)) => if len > bound {
            Err(BinError::StringTooLong)
        } else {
            bin::parse_string(b)
        },
        Err(e) => Err(e),
    }
}

impl<const N: usize> BinaryData for Varchar<N> {
    type Model = Seq<char>;

    open spec fn model(&self) -> Seq<char> {
        self@
    }

    open spec fn encodable(m: Seq<char>) -> bool {
        encode_utf8(m).len() <= N
    }

    open spec fn bytes(m: Seq<char>) -> Seq<u8> {
        String::bytes(m)
    }

    open spec fn parse(b: Seq<u8>) -> Result<(Seq<char>, int), BinError> {
        parse_varchar(b, N as nat)
    }

    fn read_binary(r: &mut BinaryReader<'_>) -> (res: Result<Varchar<N>, BinError>)
        ensures
            res matches Ok(v) ==> bin::content(old(r)@).len() <= N && (valid_utf8(
                bin::content(old(r)@),
            ) || v@.contains('\u{FFFD}')),
    {
        reveal(parse_varchar);
        reveal(bin::parse_string);
        let ghost start = r@;
        let len: u64 = match r.uleb() {
            Ok(n) => n,
            Err(e) => {
                return Err(e);
            },
        };
        if len > N as u64 {
            return Err(BinError::StringTooLong);
        }
        match bin::read_text(r, len) {
            Ok(s) => {
                proof {
                    bin::lemma_uleb_scan_len(start, bin::uleb64_groups());
                    let n = bin::parse_uleb(start)->Ok_0.1;
                    assert(start.skip(n).take(len as int) =~= start.subrange(n, n + len));
                    assert(start.skip(n).skip(len as int) =~= start.skip(n + len));
                }
                Ok(Varchar(s))
            },
            Err(e) => {
                proof {
                    bin::lemma_uleb_scan_len(start, bin::uleb64_groups());
                }
                Err(e)
            },
        }
    }

    fn write_binary(&self, out: &mut Vec<u8>) {
        self.0.write_binary(out)
    }

    proof fn lemma_round_trip(m: Seq<char>, rest: Seq<u8>) {
        reveal(parse_varchar);
        reveal(bin::string_bytes);
        reveal(bin::string_encodable);
        String::lemma_round_trip(m, rest);
        let e = encode_utf8(m);
        let b = String::bytes(m) + rest;
        assert(b =~= bin::uleb_bytes(e.len()) + (e + rest));
        bin::lemma_uleb64_round_trip(e.len() as u64, e + rest);
    }

    proof fn lemma_parse_len(b: Seq<u8>) {
        reveal(parse_varchar);
        String::lemma_parse_len(b);
    }
}

/// Whether a character may stand in a room id.
pub open spec fn room_char(c: char) -> bool {
    c == '-' || c == '_' || '0' <= c <= '9' || 'A' <= c <= 'Z' || 'a' <= c <= 'z'
}

/// Whether a text may be a room id, apart from its length on the wire.
pub open spec fn room_text(s: Seq<char>) -> bool {
    s.len() > 0 && forall|i: int| 0 <= i < s.len() ==> room_char(#[trigger] s[i])
}

/// The largest number of bytes of a room id.
pub const ROOM_ID_BYTES: usize = 20;

/// The name of a room: letters, digits, `-` and `_`.
#[derive(Debug, PartialEq, Eq, Hash)]
pub struct RoomId(Varchar<20>);

impl View for RoomId {
    type V = Seq<char>;

    closed spec fn view(&self) -> Seq<char> {
        self.0@
    }
}

impl Clone for RoomId {
    fn clone(&self) -> (res: Self)
        ensures
            res == *self,
    {
        RoomId(self.0.clone())
    }
}

impl TableKey for RoomId {
    type Id = Seq<char>;

    open spec fn id(&self) -> Seq<char> {
        self@
    }

    fn same(&self, other: &RoomId) -> (res: bool) {
        self.0.0 == other.0.0
    }
}

impl RoomId {
    /// This id, if its text may be a room id.
    pub fn validate(self) -> (res: Result<RoomId, BinError>)
        ensures
            match res {
                Ok(id) => room_text(self@) && id == self,
                Err(e) => !room_text(self@) && e == BinError::InvalidRoomId,
            },
    {
        let text = self.0.0.as_str();
        let n: usize = text.unicode_len();
        if n == 0 {
            return Err(BinError::InvalidRoomId);
        }
        let mut i: usize = 0;
        while i < n
            invariant
                text@ == self@,
                n == text@.len(),
                i <= n,
                forall|j: int| 0 <= j < i ==> room_char(#[trigger] text@[j]),
            decreases n - i,
        {
            let c: char = text.get_char(i);
            if !(c == '-' || c == '_' || ('0' <= c && c <= '9') || ('A' <= c && c <= 'Z') || ('a'
                <= c && c <= 'z')) {
                assert(!room_char(text@[i as int]));
                return Err(BinError::InvalidRoomId);
            }
            i += 1;
        }
        Ok(self)
    }

    /// A copy of the text.
    pub fn to_string(&self) -> (res: String)
        ensures
            res@ == self@,
    {
        self.0.0.clone()
    }
}

impl From<RoomId> for String {
    fn from(value: RoomId) -> (res: String)
        ensures
            res@ == value@,
    {
        value.0.0
    }
}

impl FromSpecImpl<RoomId> for String {
    open spec fn obeys_from_spec() -> bool {
        true
    }

    closed spec fn from_spec(value: RoomId) -> String {
        value.0.0
    }
}

impl TryFrom<String> for RoomId {
    type Error = BinError;

    fn try_from(value: String) -> (res: Result<Self, BinError>)
        ensures
            match res {
                Ok(id) => encode_utf8(value@).len() <= ROOM_ID_BYTES && room_text(value@) && id@
                    == value@,
                Err(e) => if encode_utf8(value@).len() > ROOM_ID_BYTES {
                    e == BinError::StringTooLong
                } else {
                    !room_text(value@) && e == BinError::InvalidRoomId
                },
            },
    {
        match Varchar::<20>::try_from(value) {
            Ok(v) => RoomId(v).validate(),
            Err(e) => Err(e),
        }
    }
}

impl TryFromSpecImpl<String> for RoomId {
    open spec fn obeys_try_from_spec() -> bool {
        true
    }

    closed spec fn try_from_spec(value: String) -> Result<Self, BinError> {
        if encode_utf8(value@).len() > ROOM_ID_BYTES {
            Err(BinError::StringTooLong)
        } else if !room_text(value@) {
            Err(BinError::InvalidRoomId)
        } else {
            Ok(RoomId(Varchar(value)))
        }
    }
}

/// A text of allowed characters that was read as it was written takes a byte for each.
proof fn lemma_room_id(b: Seq<u8>, s: Seq<char>)
    requires
        Varchar::<20>::parse(b) matches Ok((t, _)) && t == s,
        bin::content(b).len() <= ROOM_ID_BYTES,
        valid_utf8(bin::content(b)) || s.contains('\u{FFFD}'),
    ensures
        room_text(s) ==> valid_utf8(bin::content(b)) && encode_utf8(s) == bin::content(b)
            && s.len() <= ROOM_ID_BYTES,
{
    reveal(parse_varchar);
    reveal(bin::parse_string);
    if room_text(s) {
        if s.contains('\u{FFFD}') {
            let i = choose|i: int| 0 <= i < s.len() && s[i] == '\u{FFFD}';
            assert(room_char(s[i]));
        }
        decode_utf8_encode_utf8(bin::content(b));
        assert forall|i: int| 0 <= i < s.len() implies (#[trigger] s[i]) as nat <= 127 by {
            assert(room_char(s[i]));
        }
        is_ascii_chars_encode_utf8(s);
    }
}

impl BinaryData for RoomId {
    type Model = Seq<char>;

    open spec fn model(&self) -> Seq<char> {
        self@
    }

    open spec fn encodable(m: Seq<char>) -> bool {
        encode_utf8(m).len() <= ROOM_ID_BYTES && room_text(m)
    }

    open spec fn bytes(m: Seq<char>) -> Seq<u8> {
        String::bytes(m)
    }

    open spec fn parse(b: Seq<u8>) -> Result<(Seq<char>, int), BinError> {
        match Varchar::<20>::parse(b) {
            Ok((s, n)) => if room_text(s) {
                Ok((s, n))
            } else {
                Err(BinError::InvalidRoomId)
            },
            Err(e) => Err(e),
        }
    }

    /// Reads an id: one to twenty letters, digits, `-` and `_`. Bytes that are not UTF-8 give
    /// none.
    fn read_binary(r: &mut BinaryReader<'_>) -> (res: Result<RoomId, BinError>)
        ensures
            res matches Ok(id) ==> {
                &&& 1 <= id@.len() <= ROOM_ID_BYTES
                &&& room_text(id@)
                &&& encode_utf8(id@) == bin::content(old(r)@)
            },
            !valid_utf8(bin::content(old(r)@)) ==> res is Err,
    {
        match Varchar::<20>::read_binary(r) {
            Ok(v) => {
                proof {
                    lemma_room_id(old(r)@, v@);
                }
                RoomId(v).validate()
            },
            Err(e) => Err(e),
        }
    }

    fn write_binary(&self, out: &mut Vec<u8>) {
        self.0.write_binary(out)
    }

    proof fn lemma_round_trip(m: Seq<char>, rest: Seq<u8>) {
        Varchar::<20>::lemma_round_trip(m, rest);
    }

    proof fn lemma_parse_len(b: Seq<u8>) {
        Varchar::<20>::lemma_parse_len(b);
    }
}

/// The fingers on the screen at one moment of a game.
#[derive(Debug, PartialEq, Eq)]
pub struct TouchFrame {
    /// The moment, as the bits of a 32-bit float.
    pub time: u32,
    /// Each finger and where it is.
    pub points: Vec<(i8, CompactPos)>,
}

/// What a [`TouchFrame`] means.
#[verifier::ext_equal]
pub struct TouchFrameModel {
    pub time: u32,
    pub points: Seq<(i8, CompactPos)>,
}

impl BinaryData for TouchFrame {
    type Model = TouchFrameModel;

    open spec fn model(&self) -> TouchFrameModel {
        TouchFrameModel { time: self.time.model(), points: self.points.model() }
    }

    open spec fn encodable(m: TouchFrameModel) -> bool {
        <(u32, Vec<(i8, CompactPos)>) as BinaryData>::encodable((m.time, m.points))
    }

    open spec fn bytes(m: TouchFrameModel) -> Seq<u8> {
        <(u32, Vec<(i8, CompactPos)>) as BinaryData>::bytes((m.time, m.points))
    }

    open spec fn parse(b: Seq<u8>) -> Result<(TouchFrameModel, int), BinError> {
        match <(u32, Vec<(i8, CompactPos)>) as BinaryData>::parse(b) {
            Ok((p, n)) => Ok((TouchFrameModel { time: p.0, points: p.1 }, n)),
            Err(e) => Err(e),
        }
    }

    fn read_binary(r: &mut BinaryReader<'_>) -> (res: Result<TouchFrame, BinError>) {
        match <(u32, Vec<(i8, CompactPos)>) as BinaryData>::read_binary(r) {
            Ok((time, points)) => Ok(TouchFrame { time, points }),
            Err(e) => Err(e),
        }
    }

    fn write_binary(&self, out: &mut Vec<u8>) {
        bin::write2(&self.time, &self.points, out);
    }

    proof fn lemma_round_trip(m: TouchFrameModel, rest: Seq<u8>) {
        <(u32, Vec<(i8, CompactPos)>) as BinaryData>::lemma_round_trip((m.time, m.points), rest);
    }

    proof fn lemma_parse_len(b: Seq<u8>) {
        <(u32, Vec<(i8, CompactPos)>) as BinaryData>::lemma_parse_len(b);
    }
}

/// How well a note was hit.
#[derive(Debug, Clone, Copy, PartialEq, Eq, Structural)]
pub enum Judgement {
    Perfect,
    Good,
    Bad,
    Miss,
    HoldPerfect,
    HoldGood,
}

impl BinaryData for Judgement {
    type Model = Judgement;

    open spec fn model(&self) -> Judgement {
        *self
    }

    open spec fn encodable(m: Judgement) -> bool {
        match m {
            Judgement::Perfect => true,
            Judgement::Good => true,
            Judgement::Bad => true,
            Judgement::Miss => true,
            Judgement::HoldPerfect => true,
            Judgement::HoldGood => true,
        }
    }

    open spec fn bytes(m: Judgement) -> Seq<u8> {
        match m {
            Judgement::Perfect => seq![0u8],
            Judgement::Good => seq![1u8],
            Judgement::Bad => seq![2u8],
            Judgement::Miss => seq![3u8],
            Judgement::HoldPerfect => seq![4u8],
            Judgement::HoldGood => seq![5u8],
        }
    }

    open spec fn parse(b: Seq<u8>) -> Result<(Judgement, int), BinError> {
        if b.len() == 0 {
            Err(BinError::UnexpectedEof)
        } else {
            match b[0] {
                0u8 => Ok((Judgement::Perfect, 1)),
                1u8 => Ok((Judgement::Good, 1)),
                2u8 => Ok((Judgement::Bad, 1)),
                3u8 => Ok((Judgement::Miss, 1)),
                4u8 => Ok((Judgement::HoldPerfect, 1)),
                5u8 => Ok((Judgement::HoldGood, 1)),
                _ => Err(BinError::InvalidVariant),
            }
        }
    }

    fn read_binary(r: &mut BinaryReader<'_>) -> (res: Result<Judgement, BinError>) {
        let tag: u8 = match r.byte() {
            Ok(tag) => tag,
            Err(e) => {
                return Err(e);
            },
        };
        if tag == 0 {
            return Ok(Judgement::Perfect);
        }
        if tag == 1 {
            return Ok(Judgement::Good);
        }
        if tag == 2 {
            return Ok(Judgement::Bad);
        }
        if tag == 3 {
            return Ok(Judgement::Miss);
        }
        if tag == 4 {
            return Ok(Judgement::HoldPerfect);
        }
        if tag == 5 {
            return Ok(Judgement::HoldGood);
        }
        Err(BinError::InvalidVariant)
    }

    fn write_binary(&self, out: &mut Vec<u8>) {
        match self {
            Judgement::Perfect => {
                out.push(0);
                assert(out@ =~= old(out)@ + Self::bytes(self.model()));
            },
            Judgement::Good => {
                out.push(1);
                assert(out@ =~= old(out)@ + Self::bytes(self.model()));
            },
            Judgement::Bad => {
                out.push(2);
                assert(out@ =~= old(out)@ + Self::bytes(self.model()));
            },
            Judgement::Miss => {
                out.push(3);
                assert(out@ =~= old(out)@ + Self::bytes(self.model()));
            },
            Judgement::HoldPerfect => {
                out.push(4);
                assert(out@ =~= old(out)@ + Self::bytes(self.model()));
            },
            Judgement::HoldGood => {
                out.push(5);
                assert(out@ =~= old(out)@ + Self::bytes(self.model()));
            },
        }
    }

    proof fn lemma_round_trip(m: Judgement, rest: Seq<u8>) {
        let b = Self::bytes(m) + rest;
        match m {
            _ => {},
        }
    }

    proof fn lemma_parse_len(b: Seq<u8>) {
    }
}

/// The judgement of one note.
#[derive(Debug, Clone, Copy, PartialEq, Eq, Structural)]
pub struct JudgeEvent {
    /// The moment, as the bits of a 32-bit float.
    pub time: u32,
    pub line_id: i32,
    pub note_id: i32,
    pub judgement: Judgement,
}

impl BinaryData for JudgeEvent {
    type Model = JudgeEvent;

    open spec fn model(&self) -> JudgeEvent {
        *self
    }

    open spec fn encodable(m: JudgeEvent) -> bool {
        <(u32, (i32, (i32, Judgement))) as BinaryData>::encodable((m.time, (m.line_id, (m.note_id, m.judgement))))
    }

    open spec fn bytes(m: JudgeEvent) -> Seq<u8> {
        <(u32, (i32, (i32, Judgement))) as BinaryData>::bytes((m.time, (m.line_id, (m.note_id, m.judgement))))
    }

    open spec fn parse(b: Seq<u8>) -> Result<(JudgeEvent, int), BinError> {
        match <(u32, (i32, (i32, Judgement))) as BinaryData>::parse(b) {
            Ok((p, n)) => Ok((JudgeEvent { time: p.0, line_id: p.1.0, note_id: p.1.1.0, judgement: p.1.1.1 }, n)),
            Err(e) => Err(e),
        }
    }

    fn read_binary(r: &mut BinaryReader<'_>) -> (res: Result<JudgeEvent, BinError>) {
        match <(u32, (i32, (i32, Judgement))) as BinaryData>::read_binary(r) {
            Ok((time, (line_id, (note_id, judgement)))) => Ok(JudgeEvent { time, line_id, note_id, judgement }),
            Err(e) => Err(e),
        }
    }

    fn write_binary(&self, out: &mut Vec<u8>) {
        bin::write4(&self.time, &self.line_id, &self.note_id, &self.judgement, out);
    }

    proof fn lemma_round_trip(m: JudgeEvent, rest: Seq<u8>) {
        <(u32, (i32, (i32, Judgement))) as BinaryData>::lemma_round_trip((m.time, (m.line_id, (m.note_id, m.judgement))), rest);
    }

    proof fn lemma_parse_len(b: Seq<u8>) {
        <(u32, (i32, (i32, Judgement))) as BinaryData>::lemma_parse_len(b);
    }
}

/// What a client asks of the server.
#[derive(Debug, PartialEq, Eq)]
pub enum ClientCommand {
    Ping,
    Authenticate { token: Varchar<32> },
    Chat { message: Varchar<200> },
    Touches { frames: Arc<Vec<TouchFrame>> },
    Judges { judges: Arc<Vec<JudgeEvent>> },
    CreateRoom { id: RoomId },
    JoinRoom { id: RoomId, monitor: bool },
    LeaveRoom,
    LockRoom { lock: bool },
    CycleRoom { cycle: bool },
    SelectChart { id: i32 },
    RequestStart,
    Ready,
    CancelReady,
    Played { id: i32 },
    Abort,
    /// The host shares a chart of their own with the room; `id` is a random UUID.
    SelectLocalChart { id: Varchar<40>, name: Varchar<64> },
    /// The host goes back to a chart of the service.
    SelectOnlineChart { id: i32 },
    /// The host is ready to hand out the shared chart.
    SendChart { addr: String, port: u16 },
    /// The player has got the shared chart.
    DownloadReady,
    /// The host leaves the shared chart with the server.
    UploadChart { id: Varchar<40>, data: Vec<u8> },
    /// The player asks the server for the shared chart.
    DownloadChart { id: Varchar<40> },
    /// The host stops sharing.
    CancelLocalChart,
    /// The player is no longer ready.
    CancelDownloadReady,
    /// The final score of a player, sent along; `accuracy` is the bits of a 32-bit float.
    PlayedWithScore {
        id: i32,
        score: u32,
        accuracy: u32,
        full_combo: bool,
        max_combo: u32,
        perfect: u32,
        good: u32,
        bad: u32,
        miss: u32,
    },
}

/// What a [`ClientCommand`] means.
#[verifier::ext_equal]
pub enum ClientCommandModel {
    Ping,
    Authenticate { token: Seq<char> },
    Chat { message: Seq<char> },
    Touches { frames: Seq<TouchFrameModel> },
    Judges { judges: Seq<JudgeEvent> },
    CreateRoom { id: Seq<char> },
    JoinRoom { id: Seq<char>, monitor: bool },
    LeaveRoom,
    LockRoom { lock: bool },
    CycleRoom { cycle: bool },
    SelectChart { id: i32 },
    RequestStart,
    Ready,
    CancelReady,
    Played { id: i32 },
    Abort,
    SelectLocalChart { id: Seq<char>, name: Seq<char> },
    SelectOnlineChart { id: i32 },
    SendChart { addr: Seq<char>, port: u16 },
    DownloadReady,
    UploadChart { id: Seq<char>, data: Seq<u8> },
    DownloadChart { id: Seq<char> },
    CancelLocalChart,
    CancelDownloadReady,
    PlayedWithScore {
        id: i32,
        score: u32,
        accuracy: u32,
        full_combo: bool,
        max_combo: u32,
        perfect: u32,
        good: u32,
        bad: u32,
        miss: u32,
    },
}

impl BinaryData for ClientCommand {
    type Model = ClientCommandModel;

    open spec fn model(&self) -> ClientCommandModel {
        match *self {
            ClientCommand::Ping => ClientCommandModel::Ping,
            ClientCommand::Authenticate { token } => ClientCommandModel::Authenticate { token: token.model() },
            ClientCommand::Chat { message } => ClientCommandModel::Chat { message: message.model() },
            ClientCommand::Touches { frames } => ClientCommandModel::Touches { frames: frames.model() },
            ClientCommand::Judges { judges } => ClientCommandModel::Judges { judges: judges.model() },
            ClientCommand::CreateRoom { id } => ClientCommandModel::CreateRoom { id: id.model() },
            ClientCommand::JoinRoom { id, monitor } => ClientCommandModel::JoinRoom { id: id.model(), monitor: monitor.model() },
            ClientCommand::LeaveRoom => ClientCommandModel::LeaveRoom,
            ClientCommand::LockRoom { lock } => ClientCommandModel::LockRoom { lock: lock.model() },
            ClientCommand::CycleRoom { cycle } => ClientCommandModel::CycleRoom { cycle: cycle.model() },
            ClientCommand::SelectChart { id } => ClientCommandModel::SelectChart { id: id.model() },
            ClientCommand::RequestStart => ClientCommandModel::RequestStart,
            ClientCommand::Ready => ClientCommandModel::Ready,
            ClientCommand::CancelReady => ClientCommandModel::CancelReady,
            ClientCommand::Played { id } => ClientCommandModel::Played { id: id.model() },
            ClientCommand::Abort => ClientCommandModel::Abort,
            ClientCommand::SelectLocalChart { id, name } => ClientCommandModel::SelectLocalChart { id: id.model(), name: name.model() },
            ClientCommand::SelectOnlineChart { id } => ClientCommandModel::SelectOnlineChart { id: id.model() },
            ClientCommand::SendChart { addr, port } => ClientCommandModel::SendChart { addr: addr.model(), port: port.model() },
            ClientCommand::DownloadReady => ClientCommandModel::DownloadReady,
            ClientCommand::UploadChart { id, data } => ClientCommandModel::UploadChart { id: id.model(), data: data.model() },
            ClientCommand::DownloadChart { id } => ClientCommandModel::DownloadChart { id: id.model() },
            ClientCommand::CancelLocalChart => ClientCommandModel::CancelLocalChart,
            ClientCommand::CancelDownloadReady => ClientCommandModel::CancelDownloadReady,
            ClientCommand::PlayedWithScore { id, score, accuracy, full_combo, max_combo, perfect, good, bad, miss } => ClientCommandModel::PlayedWithScore { id: id.model(), score: score.model(), accuracy: accuracy.model(), full_combo: full_combo.model(), max_combo: max_combo.model(), perfect: perfect.model(), good: good.model(), bad: bad.model(), miss: miss.model() },
        }
    }

    open spec fn encodable(m: ClientCommandModel) -> bool {
        match m {
            ClientCommandModel::Ping => true,
            ClientCommandModel::Authenticate { token } => <Varchar<32> as BinaryData>::encodable(token),
            ClientCommandModel::Chat { message } => <Varchar<200> as BinaryData>::encodable(message),
            ClientCommandModel::Touches { frames } => <Arc<Vec<TouchFrame>> as BinaryData>::encodable(frames),
            ClientCommandModel::Judges { judges } => <Arc<Vec<JudgeEvent>> as BinaryData>::encodable(judges),
            ClientCommandModel::CreateRoom { id } => RoomId::encodable(id),
            ClientCommandModel::JoinRoom { id, monitor } => <(RoomId, bool) as BinaryData>::encodable((id, monitor)),
            ClientCommandModel::LeaveRoom => true,
            ClientCommandModel::LockRoom { lock } => bool::encodable(lock),
            ClientCommandModel::CycleRoom { cycle } => bool::encodable(cycle),
            ClientCommandModel::SelectChart { id } => i32::encodable(id),
            ClientCommandModel::RequestStart => true,
            ClientCommandModel::Ready => true,
            ClientCommandModel::CancelReady => true,
            ClientCommandModel::Played { id } => i32::encodable(id),
            ClientCommandModel::Abort => true,
            ClientCommandModel::SelectLocalChart { id, name } => <(Varchar<40>, Varchar<64>) as BinaryData>::encodable((id, name)),
            ClientCommandModel::SelectOnlineChart { id } => i32::encodable(id),
            ClientCommandModel::SendChart { addr, port } => <(String, u16) as BinaryData>::encodable((addr, port)),
            ClientCommandModel::DownloadReady => true,
            ClientCommandModel::UploadChart { id, data } => <(Varchar<40>, Vec<u8>) as BinaryData>::encodable((id, data)),
            ClientCommandModel::DownloadChart { id } => <Varchar<40> as BinaryData>::encodable(id),
            ClientCommandModel::CancelLocalChart => true,
            ClientCommandModel::CancelDownloadReady => true,
            ClientCommandModel::PlayedWithScore { id, score, accuracy, full_combo, max_combo, perfect, good, bad, miss } => <(i32, (u32, (u32, (bool, (u32, (u32, (u32, (u32, u32)))))))) as BinaryData>::encodable((id, (score, (accuracy, (full_combo, (max_combo, (perfect, (good, (bad, miss))))))))),
        }
    }

    open spec fn bytes(m: ClientCommandModel) -> Seq<u8> {
        match m {
            ClientCommandModel::Ping => seq![0u8],
            ClientCommandModel::Authenticate { token } => seq![1u8] + <Varchar<32> as BinaryData>::bytes(token),
            ClientCommandModel::Chat { message } => seq![2u8] + <Varchar<200> as BinaryData>::bytes(message),
            ClientCommandModel::Touches { frames } => seq![3u8] + <Arc<Vec<TouchFrame>> as BinaryData>::bytes(frames),
            ClientCommandModel::Judges { judges } => seq![4u8] + <Arc<Vec<JudgeEvent>> as BinaryData>::bytes(judges),
            ClientCommandModel::CreateRoom { id } => seq![5u8] + RoomId::bytes(id),
            ClientCommandModel::JoinRoom { id, monitor } => seq![6u8] + <(RoomId, bool) as BinaryData>::bytes((id, monitor)),
            ClientCommandModel::LeaveRoom => seq![7u8],
            ClientCommandModel::LockRoom { lock } => seq![8u8] + bool::bytes(lock),
            ClientCommandModel::CycleRoom { cycle } => seq![9u8] + bool::bytes(cycle),
            ClientCommandModel::SelectChart { id } => seq![10u8] + i32::bytes(id),
            ClientCommandModel::RequestStart => seq![11u8],
            ClientCommandModel::Ready => seq![12u8],
            ClientCommandModel::CancelReady => seq![13u8],
            ClientCommandModel::Played { id } => seq![14u8] + i32::bytes(id),
            ClientCommandModel::Abort => seq![15u8],
            ClientCommandModel::SelectLocalChart { id, name } => seq![16u8] + <(Varchar<40>, Varchar<64>) as BinaryData>::bytes((id, name)),
            ClientCommandModel::SelectOnlineChart { id } => seq![17u8] + i32::bytes(id),
            ClientCommandModel::SendChart { addr, port } => seq![18u8] + <(String, u16) as BinaryData>::bytes((addr, port)),
            ClientCommandModel::DownloadReady => seq![19u8],
            ClientCommandModel::UploadChart { id, data } => seq![20u8] + <(Varchar<40>, Vec<u8>) as BinaryData>::bytes((id, data)),
            ClientCommandModel::DownloadChart { id } => seq![21u8] + <Varchar<40> as BinaryData>::bytes(id),
            ClientCommandModel::CancelLocalChart => seq![22u8],
            ClientCommandModel::CancelDownloadReady => seq![23u8],
            ClientCommandModel::PlayedWithScore { id, score, accuracy, full_combo, max_combo, perfect, good, bad, miss } => seq![24u8] + <(i32, (u32, (u32, (bool, (u32, (u32, (u32, (u32, u32)))))))) as BinaryData>::bytes((id, (score, (accuracy, (full_combo, (max_combo, (perfect, (good, (bad, miss))))))))),
        }
    }

    open spec fn parse(b: Seq<u8>) -> Result<(ClientCommandModel, int), BinError> {
        if b.len() == 0 {
            Err(BinError::UnexpectedEof)
        } else {
            match b[0] {
                0u8 => Ok((ClientCommandModel::Ping, 1)),
                1u8 => match <Varchar<32> as BinaryData>::parse(b.skip(1)) {
                    Ok((p, n)) => Ok((ClientCommandModel::Authenticate { token: p }, n + 1)),
                    Err(e) => Err(e),
                },
                2u8 => match <Varchar<200> as BinaryData>::parse(b.skip(1)) {
                    Ok((p, n)) => Ok((ClientCommandModel::Chat { message: p }, n + 1)),
                    Err(e) => Err(e),
                },
                3u8 => match <Arc<Vec<TouchFrame>> as BinaryData>::parse(b.skip(1)) {
                    Ok((p, n)) => Ok((ClientCommandModel::Touches { frames: p }, n + 1)),
                    Err(e) => Err(e),
                },
                4u8 => match <Arc<Vec<JudgeEvent>> as BinaryData>::parse(b.skip(1)) {
                    Ok((p, n)) => Ok((ClientCommandModel::Judges { judges: p }, n + 1)),
                    Err(e) => Err(e),
                },
                5u8 => match RoomId::parse(b.skip(1)) {
                    Ok((p, n)) => Ok((ClientCommandModel::CreateRoom { id: p }, n + 1)),
                    Err(e) => Err(e),
                },
                6u8 => match <(RoomId, bool) as BinaryData>::parse(b.skip(1)) {
                    Ok((p, n)) => Ok((ClientCommandModel::JoinRoom { id: p.0, monitor: p.1 }, n + 1)),
                    Err(e) => Err(e),
                },
                7u8 => Ok((ClientCommandModel::LeaveRoom, 1)),
                8u8 => match bool::parse(b.skip(1)) {
                    Ok((p, n)) => Ok((ClientCommandModel::LockRoom { lock: p }, n + 1)),
                    Err(e) => Err(e),
                },
                9u8 => match bool::parse(b.skip(1)) {
                    Ok((p, n)) => Ok((ClientCommandModel::CycleRoom { cycle: p }, n + 1)),
                    Err(e) => Err(e),
                },
                10u8 => match i32::parse(b.skip(1)) {
                    Ok((p, n)) => Ok((ClientCommandModel::SelectChart { id: p }, n + 1)),
                    Err(e) => Err(e),
                },
                11u8 => Ok((ClientCommandModel::RequestStart, 1)),
                12u8 => Ok((ClientCommandModel::Ready, 1)),
                13u8 => Ok((ClientCommandModel::CancelReady, 1)),
                14u8 => match i32::parse(b.skip(1)) {
                    Ok((p, n)) => Ok((ClientCommandModel::Played { id: p }, n + 1)),
                    Err(e) => Err(e),
                },
                15u8 => Ok((ClientCommandModel::Abort, 1)),
                16u8 => match <(Varchar<40>, Varchar<64>) as BinaryData>::parse(b.skip(1)) {
                    Ok((p, n)) => Ok((ClientCommandModel::SelectLocalChart { id: p.0, name: p.1 }, n + 1)),
                    Err(e) => Err(e),
                },
                17u8 => match i32::parse(b.skip(1)) {
                    Ok((p, n)) => Ok((ClientCommandModel::SelectOnlineChart { id: p }, n + 1)),
                    Err(e) => Err(e),
                },
                18u8 => match <(String, u16) as BinaryData>::parse(b.skip(1)) {
                    Ok((p, n)) => Ok((ClientCommandModel::SendChart { addr: p.0, port: p.1 }, n + 1)),
                    Err(e) => Err(e),
                },
                19u8 => Ok((ClientCommandModel::DownloadReady, 1)),
                20u8 => match <(Varchar<40>, Vec<u8>) as BinaryData>::parse(b.skip(1)) {
                    Ok((p, n)) => Ok((ClientCommandModel::UploadChart { id: p.0, data: p.1 }, n + 1)),
                    Err(e) => Err(e),
                },
                21u8 => match <Varchar<40> as BinaryData>::parse(b.skip(1)) {
                    Ok((p, n)) => Ok((ClientCommandModel::DownloadChart { id: p }, n + 1)),
                    Err(e) => Err(e),
                },
                22u8 => Ok((ClientCommandModel::CancelLocalChart, 1)),
                23u8 => Ok((ClientCommandModel::CancelDownloadReady, 1)),
                24u8 => match <(i32, (u32, (u32, (bool, (u32, (u32, (u32, (u32, u32)))))))) as BinaryData>::parse(b.skip(1)) {
                    Ok((p, n)) => Ok((ClientCommandModel::PlayedWithScore { id: p.0, score: p.1.0, accuracy: p.1.1.0, full_combo: p.1.1.1.0, max_combo: p.1.1.1.1.0, perfect: p.1.1.1.1.1.0, good: p.1.1.1.1.1.1.0, bad: p.1.1.1.1.1.1.1.0, miss: p.1.1.1.1.1.1.1.1 }, n + 1)),
                    Err(e) => Err(e),
                },
                _ => Err(BinError::InvalidVariant),
            }
        }
    }

    #[verifier::rlimit(60)]
    #[verifier::spinoff_prover]
    fn read_binary(r: &mut BinaryReader<'_>) -> (res: Result<ClientCommand, BinError>) {
        let ghost start = r@;
        let tag: u8 = match r.byte() {
            Ok(tag) => tag,
            Err(e) => {
                return Err(e);
            },
        };
        if tag == 0 {
            return Ok(ClientCommand::Ping);
        }
        if tag == 1 {
            return match <Varchar<32> as BinaryData>::read_binary(r) {
                Ok(token) => {
                    proof {
                        bin::lemma_after_tag::<Varchar<32>>(start);
                    }
                    Ok(ClientCommand::Authenticate { token })
                },
                Err(e) => Err(e),
            };
        }
        if tag == 2 {
            return match <Varchar<200> as BinaryData>::read_binary(r) {
                Ok(message) => {
                    proof {
                        bin::lemma_after_tag::<Varchar<200>>(start);
                    }
                    Ok(ClientCommand::Chat { message })
                },
                Err(e) => Err(e),
            };
        }
        if tag == 3 {
            return match <Arc<Vec<TouchFrame>> as BinaryData>::read_binary(r) {
                Ok(frames) => {
                    proof {
                        bin::lemma_after_tag::<Arc<Vec<TouchFrame>>>(start);
                    }
                    Ok(ClientCommand::Touches { frames })
                },
                Err(e) => Err(e),
            };
        }
        if tag == 4 {
            return match <Arc<Vec<JudgeEvent>> as BinaryData>::read_binary(r) {
                Ok(judges) => {
                    proof {
                        bin::lemma_after_tag::<Arc<Vec<JudgeEvent>>>(start);
                    }
                    Ok(ClientCommand::Judges { judges })
                },
                Err(e) => Err(e),
            };
        }
        if tag == 5 {
            return match RoomId::read_binary(r) {
                Ok(id) => {
                    proof {
                        bin::lemma_after_tag::<RoomId>(start);
                    }
                    Ok(ClientCommand::CreateRoom { id })
                },
                Err(e) => Err(e),
            };
        }
        if tag == 6 {
            return match <(RoomId, bool) as BinaryData>::read_binary(r) {
                Ok((id, monitor)) => {
                    proof {
                        bin::lemma_after_tag::<(RoomId, bool)>(start);
                    }
                    Ok(ClientCommand::JoinRoom { id, monitor })
                },
                Err(e) => Err(e),
            };
        }
        if tag == 7 {
            return Ok(ClientCommand::LeaveRoom);
        }
        if tag == 8 {
            return match bool::read_binary(r) {
                Ok(lock) => {
                    proof {
                        bin::lemma_after_tag::<bool>(start);
                    }
                    Ok(ClientCommand::LockRoom { lock })
                },
                Err(e) => Err(e),
            };
        }
        if tag == 9 {
            return match bool::read_binary(r) {
                Ok(cycle) => {
                    proof {
                        bin::lemma_after_tag::<bool>(start);
                    }
                    Ok(ClientCommand::CycleRoom { cycle })
                },
                Err(e) => Err(e),
            };
        }
        if tag == 10 {
            return match i32::read_binary(r) {
                Ok(id) => {
                    proof {
                        bin::lemma_after_tag::<i32>(start);
                    }
                    Ok(ClientCommand::SelectChart { id })
                },
                Err(e) => Err(e),
            };
        }
        if tag == 11 {
            return Ok(ClientCommand::RequestStart);
        }
        if tag == 12 {
            return Ok(ClientCommand::Ready);
        }
        if tag == 13 {
            return Ok(ClientCommand::CancelReady);
        }
        if tag == 14 {
            return match i32::read_binary(r) {
                Ok(id) => {
                    proof {
                        bin::lemma_after_tag::<i32>(start);
                    }
                    Ok(ClientCommand::Played { id })
                },
                Err(e) => Err(e),
            };
        }
        if tag == 15 {
            return Ok(ClientCommand::Abort);
        }
        if tag == 16 {
            return match <(Varchar<40>, Varchar<64>) as BinaryData>::read_binary(r) {
                Ok((id, name)) => {
                    proof {
                        bin::lemma_after_tag::<(Varchar<40>, Varchar<64>)>(start);
                    }
                    Ok(ClientCommand::SelectLocalChart { id, name })
                },
                Err(e) => Err(e),
            };
        }
        if tag == 17 {
            return match i32::read_binary(r) {
                Ok(id) => {
                    proof {
                        bin::lemma_after_tag::<i32>(start);
                    }
                    Ok(ClientCommand::SelectOnlineChart { id })
                },
                Err(e) => Err(e),
            };
        }
        if tag == 18 {
            return match <(String, u16) as BinaryData>::read_binary(r) {
                Ok((addr, port)) => {
                    proof {
                        bin::lemma_after_tag::<(String, u16)>(start);
                    }
                    Ok(ClientCommand::SendChart { addr, port })
                },
                Err(e) => Err(e),
            };
        }
        if tag == 19 {
            return Ok(ClientCommand::DownloadReady);
        }
        if tag == 20 {
            return match <(Varchar<40>, Vec<u8>) as BinaryData>::read_binary(r) {
                Ok((id, data)) => {
                    proof {
                        bin::lemma_after_tag::<(Varchar<40>, Vec<u8>)>(start);
                    }
                    Ok(ClientCommand::UploadChart { id, data })
                },
                Err(e) => Err(e),
            };
        }
        if tag == 21 {
            return match <Varchar<40> as BinaryData>::read_binary(r) {
                Ok(id) => {
                    proof {
                        bin::lemma_after_tag::<Varchar<40>>(start);
                    }
                    Ok(ClientCommand::DownloadChart { id })
                },
                Err(e) => Err(e),
            };
        }
        if tag == 22 {
            return Ok(ClientCommand::CancelLocalChart);
        }
        if tag == 23 {
            return Ok(ClientCommand::CancelDownloadReady);
        }
        if tag == 24 {
            return match <(i32, (u32, (u32, (bool, (u32, (u32, (u32, (u32, u32)))))))) as BinaryData>::read_binary(r) {
                Ok((id, (score, (accuracy, (full_combo, (max_combo, (perfect, (good, (bad, miss))))))))) => {
                    proof {
                        bin::lemma_after_tag::<(i32, (u32, (u32, (bool, (u32, (u32, (u32, (u32, u32))))))))>(start);
                    }
                    Ok(ClientCommand::PlayedWithScore { id, score, accuracy, full_combo, max_combo, perfect, good, bad, miss })
                },
                Err(e) => Err(e),
            };
        }
        Err(BinError::InvalidVariant)
    }

    fn write_binary(&self, out: &mut Vec<u8>) {
        match self {
            ClientCommand::Ping => {
                out.push(0);
                assert(out@ =~= old(out)@ + Self::bytes(self.model()));
            },
            ClientCommand::Authenticate { token } => {
                out.push(1);
                token.write_binary(out);
                assert(out@ =~= old(out)@ + Self::bytes(self.model()));
            },
            ClientCommand::Chat { message } => {
                out.push(2);
                message.write_binary(out);
                assert(out@ =~= old(out)@ + Self::bytes(self.model()));
            },
            ClientCommand::Touches { frames } => {
                out.push(3);
                frames.write_binary(out);
                assert(out@ =~= old(out)@ + Self::bytes(self.model()));
            },
            ClientCommand::Judges { judges } => {
                out.push(4);
                judges.write_binary(out);
                assert(out@ =~= old(out)@ + Self::bytes(self.model()));
            },
            ClientCommand::CreateRoom { id } => {
                out.push(5);
                id.write_binary(out);
                assert(out@ =~= old(out)@ + Self::bytes(self.model()));
            },
            ClientCommand::JoinRoom { id, monitor } => {
                out.push(6);
                bin::write2(id, monitor, out);
                assert(out@ =~= old(out)@ + Self::bytes(self.model()));
            },
            ClientCommand::LeaveRoom => {
                out.push(7);
                assert(out@ =~= old(out)@ + Self::bytes(self.model()));
            },
            ClientCommand::LockRoom { lock } => {
                out.push(8);
                lock.write_binary(out);
                assert(out@ =~= old(out)@ + Self::bytes(self.model()));
            },
            ClientCommand::CycleRoom { cycle } => {
                out.push(9);
                cycle.write_binary(out);
                assert(out@ =~= old(out)@ + Self::bytes(self.model()));
            },
            ClientCommand::SelectChart { id } => {
                out.push(10);
                id.write_binary(out);
                assert(out@ =~= old(out)@ + Self::bytes(self.model()));
            },
            ClientCommand::RequestStart => {
                out.push(11);
                assert(out@ =~= old(out)@ + Self::bytes(self.model()));
            },
            ClientCommand::Ready => {
                out.push(12);
                assert(out@ =~= old(out)@ + Self::bytes(self.model()));
            },
            ClientCommand::CancelReady => {
                out.push(13);
                assert(out@ =~= old(out)@ + Self::bytes(self.model()));
            },
            ClientCommand::Played { id } => {
                out.push(14);
                id.write_binary(out);
                assert(out@ =~= old(out)@ + Self::bytes(self.model()));
            },
            ClientCommand::Abort => {
                out.push(15);
                assert(out@ =~= old(out)@ + Self::bytes(self.model()));
            },
            ClientCommand::SelectLocalChart { id, name } => {
                out.push(16);
                bin::write2(id, name, out);
                assert(out@ =~= old(out)@ + Self::bytes(self.model()));
            },
            ClientCommand::SelectOnlineChart { id } => {
                out.push(17);
                id.write_binary(out);
                assert(out@ =~= old(out)@ + Self::bytes(self.model()));
            },
            ClientCommand::SendChart { addr, port } => {
                out.push(18);
                bin::write2(addr, port, out);
                assert(out@ =~= old(out)@ + Self::bytes(self.model()));
            },
            ClientCommand::DownloadReady => {
                out.push(19);
                assert(out@ =~= old(out)@ + Self::bytes(self.model()));
            },
            ClientCommand::UploadChart { id, data } => {
                out.push(20);
                bin::write2(id, data, out);
                assert(out@ =~= old(out)@ + Self::bytes(self.model()));
            },
            ClientCommand::DownloadChart { id } => {
                out.push(21);
                id.write_binary(out);
                assert(out@ =~= old(out)@ + Self::bytes(self.model()));
            },
            ClientCommand::CancelLocalChart => {
                out.push(22);
                assert(out@ =~= old(out)@ + Self::bytes(self.model()));
            },
            ClientCommand::CancelDownloadReady => {
                out.push(23);
                assert(out@ =~= old(out)@ + Self::bytes(self.model()));
            },
            ClientCommand::PlayedWithScore { id, score, accuracy, full_combo, max_combo, perfect, good, bad, miss } => {
                out.push(24);
                bin::write9(id, score, accuracy, full_combo, max_combo, perfect, good, bad, miss, out);
                assert(out@ =~= old(out)@ + Self::bytes(self.model()));
            },
        }
    }

    proof fn lemma_round_trip(m: ClientCommandModel, rest: Seq<u8>) {
        let b = Self::bytes(m) + rest;
        match m {
            ClientCommandModel::Authenticate { token } => {
                assert(b.skip(1) =~= <Varchar<32> as BinaryData>::bytes(token) + rest);
                <Varchar<32> as BinaryData>::lemma_round_trip(token, rest);
            },
            ClientCommandModel::Chat { message } => {
                assert(b.skip(1) =~= <Varchar<200> as BinaryData>::bytes(message) + rest);
                <Varchar<200> as BinaryData>::lemma_round_trip(message, rest);
            },
            ClientCommandModel::Touches { frames } => {
                assert(b.skip(1) =~= <Arc<Vec<TouchFrame>> as BinaryData>::bytes(frames) + rest);
                <Arc<Vec<TouchFrame>> as BinaryData>::lemma_round_trip(frames, rest);
            },
            ClientCommandModel::Judges { judges } => {
                assert(b.skip(1) =~= <Arc<Vec<JudgeEvent>> as BinaryData>::bytes(judges) + rest);
                <Arc<Vec<JudgeEvent>> as BinaryData>::lemma_round_trip(judges, rest);
            },
            ClientCommandModel::CreateRoom { id } => {
                assert(b.skip(1) =~= RoomId::bytes(id) + rest);
                RoomId::lemma_round_trip(id, rest);
            },
            ClientCommandModel::JoinRoom { id, monitor } => {
                assert(b.skip(1) =~= <(RoomId, bool) as BinaryData>::bytes((id, monitor)) + rest);
                <(RoomId, bool) as BinaryData>::lemma_round_trip((id, monitor), rest);
            },
            ClientCommandModel::LockRoom { lock } => {
                assert(b.skip(1) =~= bool::bytes(lock) + rest);
                bool::lemma_round_trip(lock, rest);
            },
            ClientCommandModel::CycleRoom { cycle } => {
                assert(b.skip(1) =~= bool::bytes(cycle) + rest);
                bool::lemma_round_trip(cycle, rest);
            },
            ClientCommandModel::SelectChart { id } => {
                assert(b.skip(1) =~= i32::bytes(id) + rest);
                i32::lemma_round_trip(id, rest);
            },
            ClientCommandModel::Played { id } => {
                assert(b.skip(1) =~= i32::bytes(id) + rest);
                i32::lemma_round_trip(id, rest);
            },
            ClientCommandModel::SelectLocalChart { id, name } => {
                assert(b.skip(1) =~= <(Varchar<40>, Varchar<64>) as BinaryData>::bytes((id, name)) + rest);
                <(Varchar<40>, Varchar<64>) as BinaryData>::lemma_round_trip((id, name), rest);
            },
            ClientCommandModel::SelectOnlineChart { id } => {
                assert(b.skip(1) =~= i32::bytes(id) + rest);
                i32::lemma_round_trip(id, rest);
            },
            ClientCommandModel::SendChart { addr, port } => {
                assert(b.skip(1) =~= <(String, u16) as BinaryData>::bytes((addr, port)) + rest);
                <(String, u16) as BinaryData>::lemma_round_trip((addr, port), rest);
            },
            ClientCommandModel::UploadChart { id, data } => {
                assert(b.skip(1) =~= <(Varchar<40>, Vec<u8>) as BinaryData>::bytes((id, data)) + rest);
                <(Varchar<40>, Vec<u8>) as BinaryData>::lemma_round_trip((id, data), rest);
            },
            ClientCommandModel::DownloadChart { id } => {
                assert(b.skip(1) =~= <Varchar<40> as BinaryData>::bytes(id) + rest);
                <Varchar<40> as BinaryData>::lemma_round_trip(id, rest);
            },
            ClientCommandModel::PlayedWithScore { id, score, accuracy, full_combo, max_combo, perfect, good, bad, miss } => {
                assert(b.skip(1) =~= <(i32, (u32, (u32, (bool, (u32, (u32, (u32, (u32, u32)))))))) as BinaryData>::bytes((id, (score, (accuracy, (full_combo, (max_combo, (perfect, (good, (bad, miss))))))))) + rest);
                <(i32, (u32, (u32, (bool, (u32, (u32, (u32, (u32, u32)))))))) as BinaryData>::lemma_round_trip((id, (score, (accuracy, (full_combo, (max_combo, (perfect, (good, (bad, miss)))))))), rest);
            },
            _ => {},
        }
    }

    proof fn lemma_parse_len(b: Seq<u8>) {
        if b.len() > 0 {
            <Varchar<32> as BinaryData>::lemma_parse_len(b.skip(1));
            <Varchar<200> as BinaryData>::lemma_parse_len(b.skip(1));
            <Arc<Vec<TouchFrame>> as BinaryData>::lemma_parse_len(b.skip(1));
            <Arc<Vec<JudgeEvent>> as BinaryData>::lemma_parse_len(b.skip(1));
            RoomId::lemma_parse_len(b.skip(1));
            <(RoomId, bool) as BinaryData>::lemma_parse_len(b.skip(1));
            bool::lemma_parse_len(b.skip(1));
            i32::lemma_parse_len(b.skip(1));
            <(Varchar<40>, Varchar<64>) as BinaryData>::lemma_parse_len(b.skip(1));
            <(String, u16) as BinaryData>::lemma_parse_len(b.skip(1));
            <(Varchar<40>, Vec<u8>) as BinaryData>::lemma_parse_len(b.skip(1));
            <Varchar<40> as BinaryData>::lemma_parse_len(b.skip(1));
            <(i32, (u32, (u32, (bool, (u32, (u32, (u32, (u32, u32)))))))) as BinaryData>::lemma_parse_len(b.skip(1));
        }
    }
}

/// What happened in a room, for the people in it.
#[derive(Debug, PartialEq, Eq)]
pub enum Message {
    Chat { user: i32, content: String },
    CreateRoom { user: i32, name: String },
    JoinRoom { user: i32, name: String },
    LeaveRoom { user: i32, name: String },
    NewHost { user: i32 },
    SelectChart { user: i32, name: String, id: i32 },
    GameStart { user: i32 },
    Ready { user: i32 },
    CancelReady { user: i32 },
    CancelGame { user: i32 },
    StartPlaying,
    /// `accuracy` is the bits of a 32-bit float.
    Played {
        user: i32,
        score: i32,
        accuracy: u32,
        full_combo: bool,
    },
    GameEnd,
    Abort { user: i32 },
    LockRoom { lock: bool },
    CycleRoom { cycle: bool },
    /// The host shares a chart of their own.
    SelectLocalChart { user: i32, name: String, id: String },
    /// The host hands out the shared chart.
    SendChart { user: i32 },
    /// A player has got the shared chart.
    DownloadReady { user: i32 },
}

/// What a [`Message`] means.
#[verifier::ext_equal]
pub enum MessageModel {
    Chat { user: i32, content: Seq<char> },
    CreateRoom { user: i32, name: Seq<char> },
    JoinRoom { user: i32, name: Seq<char> },
    LeaveRoom { user: i32, name: Seq<char> },
    NewHost { user: i32 },
    SelectChart { user: i32, name: Seq<char>, id: i32 },
    GameStart { user: i32 },
    Ready { user: i32 },
    CancelReady { user: i32 },
    CancelGame { user: i32 },
    StartPlaying,
    Played {
        user: i32,
        score: i32,
        accuracy: u32,
        full_combo: bool,
    },
    GameEnd,
    Abort { user: i32 },
    LockRoom { lock: bool },
    CycleRoom { cycle: bool },
    SelectLocalChart { user: i32, name: Seq<char>, id: Seq<char> },
    SendChart { user: i32 },
    DownloadReady { user: i32 },
}

impl BinaryData for Message {
    type Model = MessageModel;

    open spec fn model(&self) -> MessageModel {
        match *self {
            Message::Chat { user, content } => MessageModel::Chat { user: user.model(), content: content.model() },
            Message::CreateRoom { user, name } => MessageModel::CreateRoom { user: user.model(), name: name.model() },
            Message::JoinRoom { user, name } => MessageModel::JoinRoom { user: user.model(), name: name.model() },
            Message::LeaveRoom { user, name } => MessageModel::LeaveRoom { user: user.model(), name: name.model() },
            Message::NewHost { user } => MessageModel::NewHost { user: user.model() },
            Message::SelectChart { user, name, id } => MessageModel::SelectChart { user: user.model(), name: name.model(), id: id.model() },
            Message::GameStart { user } => MessageModel::GameStart { user: user.model() },
            Message::Ready { user } => MessageModel::Ready { user: user.model() },
            Message::CancelReady { user } => MessageModel::CancelReady { user: user.model() },
            Message::CancelGame { user } => MessageModel::CancelGame { user: user.model() },
            Message::StartPlaying => MessageModel::StartPlaying,
            Message::Played { user, score, accuracy, full_combo } => MessageModel::Played { user: user.model(), score: score.model(), accuracy: accuracy.model(), full_combo: full_combo.model() },
            Message::GameEnd => MessageModel::GameEnd,
            Message::Abort { user } => MessageModel::Abort { user: user.model() },
            Message::LockRoom { lock } => MessageModel::LockRoom { lock: lock.model() },
            Message::CycleRoom { cycle } => MessageModel::CycleRoom { cycle: cycle.model() },
            Message::SelectLocalChart { user, name, id } => MessageModel::SelectLocalChart { user: user.model(), name: name.model(), id: id.model() },
            Message::SendChart { user } => MessageModel::SendChart { user: user.model() },
            Message::DownloadReady { user } => MessageModel::DownloadReady { user: user.model() },
        }
    }

    open spec fn encodable(m: MessageModel) -> bool {
        match m {
            MessageModel::Chat { user, content } => <(i32, String) as BinaryData>::encodable((user, content)),
            MessageModel::CreateRoom { user, name } => <(i32, String) as BinaryData>::encodable((user, name)),
            MessageModel::JoinRoom { user, name } => <(i32, String) as BinaryData>::encodable((user, name)),
            MessageModel::LeaveRoom { user, name } => <(i32, String) as BinaryData>::encodable((user, name)),
            MessageModel::NewHost { user } => i32::encodable(user),
            MessageModel::SelectChart { user, name, id } => <(i32, (String, i32)) as BinaryData>::encodable((user, (name, id))),
            MessageModel::GameStart { user } => i32::encodable(user),
            MessageModel::Ready { user } => i32::encodable(user),
            MessageModel::CancelReady { user } => i32::encodable(user),
            MessageModel::CancelGame { user } => i32::encodable(user),
            MessageModel::StartPlaying => true,
            MessageModel::Played { user, score, accuracy, full_combo } => <(i32, (i32, (u32, bool))) as BinaryData>::encodable((user, (score, (accuracy, full_combo)))),
            MessageModel::GameEnd => true,
            MessageModel::Abort { user } => i32::encodable(user),
            MessageModel::LockRoom { lock } => bool::encodable(lock),
            MessageModel::CycleRoom { cycle } => bool::encodable(cycle),
            MessageModel::SelectLocalChart { user, name, id } => <(i32, (String, String)) as BinaryData>::encodable((user, (name, id))),
            MessageModel::SendChart { user } => i32::encodable(user),
            MessageModel::DownloadReady { user } => i32::encodable(user),
        }
    }

    open spec fn bytes(m: MessageModel) -> Seq<u8> {
        match m {
            MessageModel::Chat { user, content } => seq![0u8] + <(i32, String) as BinaryData>::bytes((user, content)),
            MessageModel::CreateRoom { user, name } => seq![1u8] + <(i32, String) as BinaryData>::bytes((user, name)),
            MessageModel::JoinRoom { user, name } => seq![2u8] + <(i32, String) as BinaryData>::bytes((user, name)),
            MessageModel::LeaveRoom { user, name } => seq![3u8] + <(i32, String) as BinaryData>::bytes((user, name)),
            MessageModel::NewHost { user } => seq![4u8] + i32::bytes(user),
            MessageModel::SelectChart { user, name, id } => seq![5u8] + <(i32, (String, i32)) as BinaryData>::bytes((user, (name, id))),
            MessageModel::GameStart { user } => seq![6u8] + i32::bytes(user),
            MessageModel::Ready { user } => seq![7u8] + i32::bytes(user),
            MessageModel::CancelReady { user } => seq![8u8] + i32::bytes(user),
            MessageModel::CancelGame { user } => seq![9u8] + i32::bytes(user),
            MessageModel::StartPlaying => seq![10u8],
            MessageModel::Played { user, score, accuracy, full_combo } => seq![11u8] + <(i32, (i32, (u32, bool))) as BinaryData>::bytes((user, (score, (accuracy, full_combo)))),
            MessageModel::GameEnd => seq![12u8],
            MessageModel::Abort { user } => seq![13u8] + i32::bytes(user),
            MessageModel::LockRoom { lock } => seq![14u8] + bool::bytes(lock),
            MessageModel::CycleRoom { cycle } => seq![15u8] + bool::bytes(cycle),
            MessageModel::SelectLocalChart { user, name, id } => seq![16u8] + <(i32, (String, String)) as BinaryData>::bytes((user, (name, id))),
            MessageModel::SendChart { user } => seq![17u8] + i32::bytes(user),
            MessageModel::DownloadReady { user } => seq![18u8] + i32::bytes(user),
        }
    }

    open spec fn parse(b: Seq<u8>) -> Result<(MessageModel, int), BinError> {
        if b.len() == 0 {
            Err(BinError::UnexpectedEof)
        } else {
            match b[0] {
                0u8 => match <(i32, String) as BinaryData>::parse(b.skip(1)) {
                    Ok((p, n)) => Ok((MessageModel::Chat { user: p.0, content: p.1 }, n + 1)),
                    Err(e) => Err(e),
                },
                1u8 => match <(i32, String) as BinaryData>::parse(b.skip(1)) {
                    Ok((p, n)) => Ok((MessageModel::CreateRoom { user: p.0, name: p.1 }, n + 1)),
                    Err(e) => Err(e),
                },
                2u8 => match <(i32, String) as BinaryData>::parse(b.skip(1)) {
                    Ok((p, n)) => Ok((MessageModel::JoinRoom { user: p.0, name: p.1 }, n + 1)),
                    Err(e) => Err(e),
                },
                3u8 => match <(i32, String) as BinaryData>::parse(b.skip(1)) {
                    Ok((p, n)) => Ok((MessageModel::LeaveRoom { user: p.0, name: p.1 }, n + 1)),
                    Err(e) => Err(e),
                },
                4u8 => match i32::parse(b.skip(1)) {
                    Ok((p, n)) => Ok((MessageModel::NewHost { user: p }, n + 1)),
                    Err(e) => Err(e),
                },
                5u8 => match <(i32, (String, i32)) as BinaryData>::parse(b.skip(1)) {
                    Ok((p, n)) => Ok((MessageModel::SelectChart { user: p.0, name: p.1.0, id: p.1.1 }, n + 1)),
                    Err(e) => Err(e),
                },
                6u8 => match i32::parse(b.skip(1)) {
                    Ok((p, n)) => Ok((MessageModel::GameStart { user: p }, n + 1)),
                    Err(e) => Err(e),
                },
                7u8 => match i32::parse(b.skip(1)) {
                    Ok((p, n)) => Ok((MessageModel::Ready { user: p }, n + 1)),
                    Err(e) => Err(e),
                },
                8u8 => match i32::parse(b.skip(1)) {
                    Ok((p, n)) => Ok((MessageModel::CancelReady { user: p }, n + 1)),
                    Err(e) => Err(e),
                },
                9u8 => match i32::parse(b.skip(1)) {
                    Ok((p, n)) => Ok((MessageModel::CancelGame { user: p }, n + 1)),
                    Err(e) => Err(e),
                },
                10u8 => Ok((MessageModel::StartPlaying, 1)),
                11u8 => match <(i32, (i32, (u32, bool))) as BinaryData>::parse(b.skip(1)) {
                    Ok((p, n)) => Ok((MessageModel::Played { user: p.0, score: p.1.0, accuracy: p.1.1.0, full_combo: p.1.1.1 }, n + 1)),
                    Err(e) => Err(e),
                },
                12u8 => Ok((MessageModel::GameEnd, 1)),
                13u8 => match i32::parse(b.skip(1)) {
                    Ok((p, n)) => Ok((MessageModel::Abort { user: p }, n + 1)),
                    Err(e) => Err(e),
                },
                14u8 => match bool::parse(b.skip(1)) {
                    Ok((p, n)) => Ok((MessageModel::LockRoom { lock: p }, n + 1)),
                    Err(e) => Err(e),
                },
                15u8 => match bool::parse(b.skip(1)) {
                    Ok((p, n)) => Ok((MessageModel::CycleRoom { cycle: p }, n + 1)),
                    Err(e) => Err(e),
                },
                16u8 => match <(i32, (String, String)) as BinaryData>::parse(b.skip(1)) {
                    Ok((p, n)) => Ok((MessageModel::SelectLocalChart { user: p.0, name: p.1.0, id: p.1.1 }, n + 1)),
                    Err(e) => Err(e),
                },
                17u8 => match i32::parse(b.skip(1)) {
                    Ok((p, n)) => Ok((MessageModel::SendChart { user: p }, n + 1)),
                    Err(e) => Err(e),
                },
                18u8 => match i32::parse(b.skip(1)) {
                    Ok((p, n)) => Ok((MessageModel::DownloadReady { user: p }, n + 1)),
                    Err(e) => Err(e),
                },
                _ => Err(BinError::InvalidVariant),
            }
        }
    }

    fn read_binary(r: &mut BinaryReader<'_>) -> (res: Result<Message, BinError>) {
        let ghost start = r@;
        let tag: u8 = match r.byte() {
            Ok(tag) => tag,
            Err(e) => {
                return Err(e);
            },
        };
        if tag == 0 {
            return match <(i32, String) as BinaryData>::read_binary(r) {
                Ok((user, content)) => {
                    proof {
                        bin::lemma_after_tag::<(i32, String)>(start);
                    }
                    Ok(Message::Chat { user, content })
                },
                Err(e) => Err(e),
            };
        }
        if tag == 1 {
            return match <(i32, String) as BinaryData>::read_binary(r) {
                Ok((user, name)) => {
                    proof {
                        bin::lemma_after_tag::<(i32, String)>(start);
                    }
                    Ok(Message::CreateRoom { user, name })
                },
                Err(e) => Err(e),
            };
        }
        if tag == 2 {
            return match <(i32, String) as BinaryData>::read_binary(r) {
                Ok((user, name)) => {
                    proof {
                        bin::lemma_after_tag::<(i32, String)>(start);
                    }
                    Ok(Message::JoinRoom { user, name })
                },
                Err(e) => Err(e),
            };
        }
        if tag == 3 {
            return match <(i32, String) as BinaryData>::read_binary(r) {
                Ok((user, name)) => {
                    proof {
                        bin::lemma_after_tag::<(i32, String)>(start);
                    }
                    Ok(Message::LeaveRoom { user, name })
                },
                Err(e) => Err(e),
            };
        }
        if tag == 4 {
            return match i32::read_binary(r) {
                Ok(user) => {
                    proof {
                        bin::lemma_after_tag::<i32>(start);
                    }
                    Ok(Message::NewHost { user })
                },
                Err(e) => Err(e),
            };
        }
        if tag == 5 {
            return match <(i32, (String, i32)) as BinaryData>::read_binary(r) {
                Ok((user, (name, id))) => {
                    proof {
                        bin::lemma_after_tag::<(i32, (String, i32))>(start);
                    }
                    Ok(Message::SelectChart { user, name, id })
                },
                Err(e) => Err(e),
            };
        }
        if tag == 6 {
            return match i32::read_binary(r) {
                Ok(user) => {
                    proof {
                        bin::lemma_after_tag::<i32>(start);
                    }
                    Ok(Message::GameStart { user })
                },
                Err(e) => Err(e),
            };
        }
        if tag == 7 {
            return match i32::read_binary(r) {
                Ok(user) => {
                    proof {
                        bin::lemma_after_tag::<i32>(start);
                    }
                    Ok(Message::Ready { user })
                },
                Err(e) => Err(e),
            };
        }
        if tag == 8 {
            return match i32::read_binary(r) {
                Ok(user) => {
                    proof {
                        bin::lemma_after_tag::<i32>(start);
                    }
                    Ok(Message::CancelReady { user })
                },
                Err(e) => Err(e),
            };
        }
        if tag == 9 {
            return match i32::read_binary(r) {
                Ok(user) => {
                    proof {
                        bin::lemma_after_tag::<i32>(start);
                    }
                    Ok(Message::CancelGame { user })
                },
                Err(e) => Err(e),
            };
        }
        if tag == 10 {
            return Ok(Message::StartPlaying);
        }
        if tag == 11 {
            return match <(i32, (i32, (u32, bool))) as BinaryData>::read_binary(r) {
                Ok((user, (score, (accuracy, full_combo)))) => {
                    proof {
                        bin::lemma_after_tag::<(i32, (i32, (u32, bool)))>(start);
                    }
                    Ok(Message::Played { user, score, accuracy, full_combo })
                },
                Err(e) => Err(e),
            };
        }
        if tag == 12 {
            return Ok(Message::GameEnd);
        }
        if tag == 13 {
            return match i32::read_binary(r) {
                Ok(user) => {
                    proof {
                        bin::lemma_after_tag::<i32>(start);
                    }
                    Ok(Message::Abort { user })
                },
                Err(e) => Err(e),
            };
        }
        if tag == 14 {
            return match bool::read_binary(r) {
                Ok(lock) => {
                    proof {
                        bin::lemma_after_tag::<bool>(start);
                    }
                    Ok(Message::LockRoom { lock })
                },
                Err(e) => Err(e),
            };
        }
        if tag == 15 {
            return match bool::read_binary(r) {
                Ok(cycle) => {
                    proof {
                        bin::lemma_after_tag::<bool>(start);
                    }
                    Ok(Message::CycleRoom { cycle })
                },
                Err(e) => Err(e),
            };
        }
        if tag == 16 {
            return match <(i32, (String, String)) as BinaryData>::read_binary(r) {
                Ok((user, (name, id))) => {
                    proof {
                        bin::lemma_after_tag::<(i32, (String, String))>(start);
                    }
                    Ok(Message::SelectLocalChart { user, name, id })
                },
                Err(e) => Err(e),
            };
        }
        if tag == 17 {
            return match i32::read_binary(r) {
                Ok(user) => {
                    proof {
                        bin::lemma_after_tag::<i32>(start);
                    }
                    Ok(Message::SendChart { user })
                },
                Err(e) => Err(e),
            };
        }
        if tag == 18 {
            return match i32::read_binary(r) {
                Ok(user) => {
                    proof {
                        bin::lemma_after_tag::<i32>(start);
                    }
                    Ok(Message::DownloadReady { user })
                },
                Err(e) => Err(e),
            };
        }
        Err(BinError::InvalidVariant)
    }

    fn write_binary(&self, out: &mut Vec<u8>) {
        match self {
            Message::Chat { user, content } => {
                out.push(0);
                bin::write2(user, content, out);
                assert(out@ =~= old(out)@ + Self::bytes(self.model()));
            },
            Message::CreateRoom { user, name } => {
                out.push(1);
                bin::write2(user, name, out);
                assert(out@ =~= old(out)@ + Self::bytes(self.model()));
            },
            Message::JoinRoom { user, name } => {
                out.push(2);
                bin::write2(user, name, out);
                assert(out@ =~= old(out)@ + Self::bytes(self.model()));
            },
            Message::LeaveRoom { user, name } => {
                out.push(3);
                bin::write2(user, name, out);
                assert(out@ =~= old(out)@ + Self::bytes(self.model()));
            },
            Message::NewHost { user } => {
                out.push(4);
                user.write_binary(out);
                assert(out@ =~= old(out)@ + Self::bytes(self.model()));
            },
            Message::SelectChart { user, name, id } => {
                out.push(5);
                bin::write3(user, name, id, out);
                assert(out@ =~= old(out)@ + Self::bytes(self.model()));
            },
            Message::GameStart { user } => {
                out.push(6);
                user.write_binary(out);
                assert(out@ =~= old(out)@ + Self::bytes(self.model()));
            },
            Message::Ready { user } => {
                out.push(7);
                user.write_binary(out);
                assert(out@ =~= old(out)@ + Self::bytes(self.model()));
            },
            Message::CancelReady { user } => {
                out.push(8);
                user.write_binary(out);
                assert(out@ =~= old(out)@ + Self::bytes(self.model()));
            },
            Message::CancelGame { user } => {
                out.push(9);
                user.write_binary(out);
                assert(out@ =~= old(out)@ + Self::bytes(self.model()));
            },
            Message::StartPlaying => {
                out.push(10);
                assert(out@ =~= old(out)@ + Self::bytes(self.model()));
            },
            Message::Played { user, score, accuracy, full_combo } => {
                out.push(11);
                bin::write4(user, score, accuracy, full_combo, out);
                assert(out@ =~= old(out)@ + Self::bytes(self.model()));
            },
            Message::GameEnd => {
                out.push(12);
                assert(out@ =~= old(out)@ + Self::bytes(self.model()));
            },
            Message::Abort { user } => {
                out.push(13);
                user.write_binary(out);
                assert(out@ =~= old(out)@ + Self::bytes(self.model()));
            },
            Message::LockRoom { lock } => {
                out.push(14);
                lock.write_binary(out);
                assert(out@ =~= old(out)@ + Self::bytes(self.model()));
            },
            Message::CycleRoom { cycle } => {
                out.push(15);
                cycle.write_binary(out);
                assert(out@ =~= old(out)@ + Self::bytes(self.model()));
            },
            Message::SelectLocalChart { user, name, id } => {
                out.push(16);
                bin::write3(user, name, id, out);
                assert(out@ =~= old(out)@ + Self::bytes(self.model()));
            },
            Message::SendChart { user } => {
                out.push(17);
                user.write_binary(out);
                assert(out@ =~= old(out)@ + Self::bytes(self.model()));
            },
            Message::DownloadReady { user } => {
                out.push(18);
                user.write_binary(out);
                assert(out@ =~= old(out)@ + Self::bytes(self.model()));
            },
        }
    }

    proof fn lemma_round_trip(m: MessageModel, rest: Seq<u8>) {
        let b = Self::bytes(m) + rest;
        match m {
            MessageModel::Chat { user, content } => {
                assert(b.skip(1) =~= <(i32, String) as BinaryData>::bytes((user, content)) + rest);
                <(i32, String) as BinaryData>::lemma_round_trip((user, content), rest);
            },
            MessageModel::CreateRoom { user, name } => {
                assert(b.skip(1) =~= <(i32, String) as BinaryData>::bytes((user, name)) + rest);
                <(i32, String) as BinaryData>::lemma_round_trip((user, name), rest);
            },
            MessageModel::JoinRoom { user, name } => {
                assert(b.skip(1) =~= <(i32, String) as BinaryData>::bytes((user, name)) + rest);
                <(i32, String) as BinaryData>::lemma_round_trip((user, name), rest);
            },
            MessageModel::LeaveRoom { user, name } => {
                assert(b.skip(1) =~= <(i32, String) as BinaryData>::bytes((user, name)) + rest);
                <(i32, String) as BinaryData>::lemma_round_trip((user, name), rest);
            },
            MessageModel::NewHost { user } => {
                assert(b.skip(1) =~= i32::bytes(user) + rest);
                i32::lemma_round_trip(user, rest);
            },
            MessageModel::SelectChart { user, name, id } => {
                assert(b.skip(1) =~= <(i32, (String, i32)) as BinaryData>::bytes((user, (name, id))) + rest);
                <(i32, (String, i32)) as BinaryData>::lemma_round_trip((user, (name, id)), rest);
            },
            MessageModel::GameStart { user } => {
                assert(b.skip(1) =~= i32::bytes(user) + rest);
                i32::lemma_round_trip(user, rest);
            },
            MessageModel::Ready { user } => {
                assert(b.skip(1) =~= i32::bytes(user) + rest);
                i32::lemma_round_trip(user, rest);
            },
            MessageModel::CancelReady { user } => {
                assert(b.skip(1) =~= i32::bytes(user) + rest);
                i32::lemma_round_trip(user, rest);
            },
            MessageModel::CancelGame { user } => {
                assert(b.skip(1) =~= i32::bytes(user) + rest);
                i32::lemma_round_trip(user, rest);
            },
            MessageModel::Played { user, score, accuracy, full_combo } => {
                assert(b.skip(1) =~= <(i32, (i32, (u32, bool))) as BinaryData>::bytes((user, (score, (accuracy, full_combo)))) + rest);
                <(i32, (i32, (u32, bool))) as BinaryData>::lemma_round_trip((user, (score, (accuracy, full_combo))), rest);
            },
            MessageModel::Abort { user } => {
                assert(b.skip(1) =~= i32::bytes(user) + rest);
                i32::lemma_round_trip(user, rest);
            },
            MessageModel::LockRoom { lock } => {
                assert(b.skip(1) =~= bool::bytes(lock) + rest);
                bool::lemma_round_trip(lock, rest);
            },
            MessageModel::CycleRoom { cycle } => {
                assert(b.skip(1) =~= bool::bytes(cycle) + rest);
                bool::lemma_round_trip(cycle, rest);
            },
            MessageModel::SelectLocalChart { user, name, id } => {
                assert(b.skip(1) =~= <(i32, (String, String)) as BinaryData>::bytes((user, (name, id))) + rest);
                <(i32, (String, String)) as BinaryData>::lemma_round_trip((user, (name, id)), rest);
            },
            MessageModel::SendChart { user } => {
                assert(b.skip(1) =~= i32::bytes(user) + rest);
                i32::lemma_round_trip(user, rest);
            },
            MessageModel::DownloadReady { user } => {
                assert(b.skip(1) =~= i32::bytes(user) + rest);
                i32::lemma_round_trip(user, rest);
            },
            _ => {},
        }
    }

    proof fn lemma_parse_len(b: Seq<u8>) {
        if b.len() > 0 {
            <(i32, String) as BinaryData>::lemma_parse_len(b.skip(1));
            i32::lemma_parse_len(b.skip(1));
            <(i32, (String, i32)) as BinaryData>::lemma_parse_len(b.skip(1));
            <(i32, (i32, (u32, bool))) as BinaryData>::lemma_parse_len(b.skip(1));
            bool::lemma_parse_len(b.skip(1));
            <(i32, (String, String)) as BinaryData>::lemma_parse_len(b.skip(1));
        }
    }
}

/// What the room of a client is doing.
#[derive(Debug, Clone, Copy, PartialEq, Eq, Structural)]
pub enum RoomState {
    SelectChart(Option<i32>),
    WaitingForReady,
    Playing,
    /// A chart of the host is being shared.
    LocalChart,
}

impl BinaryData for RoomState {
    type Model = RoomState;

    open spec fn model(&self) -> RoomState {
        *self
    }

    open spec fn encodable(m: RoomState) -> bool {
        match m {
            RoomState::SelectChart(x) => <Option<i32> as BinaryData>::encodable(x),
            RoomState::WaitingForReady => true,
            RoomState::Playing => true,
            RoomState::LocalChart => true,
        }
    }

    open spec fn bytes(m: RoomState) -> Seq<u8> {
        match m {
            RoomState::SelectChart(x) => seq![0u8] + <Option<i32> as BinaryData>::bytes(x),
            RoomState::WaitingForReady => seq![1u8],
            RoomState::Playing => seq![2u8],
            RoomState::LocalChart => seq![3u8],
        }
    }

    open spec fn parse(b: Seq<u8>) -> Result<(RoomState, int), BinError> {
        if b.len() == 0 {
            Err(BinError::UnexpectedEof)
        } else {
            match b[0] {
                0u8 => match <Option<i32> as BinaryData>::parse(b.skip(1)) {
                    Ok((p, n)) => Ok((RoomState::SelectChart(p), n + 1)),
                    Err(e) => Err(e),
                },
                1u8 => Ok((RoomState::WaitingForReady, 1)),
                2u8 => Ok((RoomState::Playing, 1)),
                3u8 => Ok((RoomState::LocalChart, 1)),
                _ => Err(BinError::InvalidVariant),
            }
        }
    }

    fn read_binary(r: &mut BinaryReader<'_>) -> (res: Result<RoomState, BinError>) {
        let ghost start = r@;
        let tag: u8 = match r.byte() {
            Ok(tag) => tag,
            Err(e) => {
                return Err(e);
            },
        };
        if tag == 0 {
            return match <Option<i32> as BinaryData>::read_binary(r) {
                Ok(x) => {
                    proof {
                        bin::lemma_after_tag::<Option<i32>>(start);
                    }
                    Ok(RoomState::SelectChart(x))
                },
                Err(e) => Err(e),
            };
        }
        if tag == 1 {
            return Ok(RoomState::WaitingForReady);
        }
        if tag == 2 {
            return Ok(RoomState::Playing);
        }
        if tag == 3 {
            return Ok(RoomState::LocalChart);
        }
        Err(BinError::InvalidVariant)
    }

    fn write_binary(&self, out: &mut Vec<u8>) {
        match self {
            RoomState::SelectChart(x) => {
                out.push(0);
                x.write_binary(out);
                assert(out@ =~= old(out)@ + Self::bytes(self.model()));
            },
            RoomState::WaitingForReady => {
                out.push(1);
                assert(out@ =~= old(out)@ + Self::bytes(self.model()));
            },
            RoomState::Playing => {
                out.push(2);
                assert(out@ =~= old(out)@ + Self::bytes(self.model()));
            },
            RoomState::LocalChart => {
                out.push(3);
                assert(out@ =~= old(out)@ + Self::bytes(self.model()));
            },
        }
    }

    proof fn lemma_round_trip(m: RoomState, rest: Seq<u8>) {
        let b = Self::bytes(m) + rest;
        match m {
            RoomState::SelectChart(x) => {
                assert(b.skip(1) =~= <Option<i32> as BinaryData>::bytes(x) + rest);
                <Option<i32> as BinaryData>::lemma_round_trip(x, rest);
            },
            _ => {},
        }
    }

    proof fn lemma_parse_len(b: Seq<u8>) {
        if b.len() > 0 {
            <Option<i32> as BinaryData>::lemma_parse_len(b.skip(1));
        }
    }
}

impl Default for RoomState {
    fn default() -> (res: RoomState)
        ensures
            res == RoomState::SelectChart(None),
    {
        RoomState::SelectChart(None)
    }
}

/// Who is in a room.
#[derive(Debug, PartialEq, Eq)]
pub struct UserInfo {
    pub id: i32,
    pub name: String,
    pub monitor: bool,
}

/// What a [`UserInfo`] means.
#[verifier::ext_equal]
pub struct UserInfoModel {
    pub id: i32,
    pub name: Seq<char>,
    pub monitor: bool,
}

impl BinaryData for UserInfo {
    type Model = UserInfoModel;

    open spec fn model(&self) -> UserInfoModel {
        UserInfoModel { id: self.id.model(), name: self.name.model(), monitor: self.monitor.model() }
    }

    open spec fn encodable(m: UserInfoModel) -> bool {
        <(i32, (String, bool)) as BinaryData>::encodable((m.id, (m.name, m.monitor)))
    }

    open spec fn bytes(m: UserInfoModel) -> Seq<u8> {
        <(i32, (String, bool)) as BinaryData>::bytes((m.id, (m.name, m.monitor)))
    }

    open spec fn parse(b: Seq<u8>) -> Result<(UserInfoModel, int), BinError> {
        match <(i32, (String, bool)) as BinaryData>::parse(b) {
            Ok((p, n)) => Ok((UserInfoModel { id: p.0, name: p.1.0, monitor: p.1.1 }, n)),
            Err(e) => Err(e),
        }
    }

    fn read_binary(r: &mut BinaryReader<'_>) -> (res: Result<UserInfo, BinError>) {
        match <(i32, (String, bool)) as BinaryData>::read_binary(r) {
            Ok((id, (name, monitor))) => Ok(UserInfo { id, name, monitor }),
            Err(e) => Err(e),
        }
    }

    fn write_binary(&self, out: &mut Vec<u8>) {
        bin::write3(&self.id, &self.name, &self.monitor, out);
    }

    proof fn lemma_round_trip(m: UserInfoModel, rest: Seq<u8>) {
        <(i32, (String, bool)) as BinaryData>::lemma_round_trip((m.id, (m.name, m.monitor)), rest);
    }

    proof fn lemma_parse_len(b: Seq<u8>) {
        <(i32, (String, bool)) as BinaryData>::lemma_parse_len(b);
    }
}

impl Clone for UserInfo {
    fn clone(&self) -> (res: UserInfo)
        ensures
            res == *self,
    {
        UserInfo { id: self.id, name: self.name.clone(), monitor: self.monitor }
    }
}

/// A room as one of its clients sees it.
#[derive(Debug, PartialEq, Eq)]
pub struct ClientRoomState {
    pub id: RoomId,
    pub state: RoomState,
    pub live: bool,
    pub locked: bool,
    pub cycle: bool,
    pub is_host: bool,
    pub is_ready: bool,
    pub users: IdTable<UserInfo>,
}

/// What a [`ClientRoomState`] means.
#[verifier::ext_equal]
pub struct ClientRoomStateModel {
    pub id: Seq<char>,
    pub state: RoomState,
    pub live: bool,
    pub locked: bool,
    pub cycle: bool,
    pub is_host: bool,
    pub is_ready: bool,
    pub users: Seq<(i32, UserInfoModel)>,
}

impl BinaryData for ClientRoomState {
    type Model = ClientRoomStateModel;

    open spec fn model(&self) -> ClientRoomStateModel {
        ClientRoomStateModel { id: self.id.model(), state: self.state.model(), live: self.live.model(), locked: self.locked.model(), cycle: self.cycle.model(), is_host: self.is_host.model(), is_ready: self.is_ready.model(), users: self.users.model() }
    }

    open spec fn encodable(m: ClientRoomStateModel) -> bool {
        <(RoomId, (RoomState, (bool, (bool, (bool, (bool, (bool, IdTable<UserInfo>))))))) as BinaryData>::encodable((m.id, (m.state, (m.live, (m.locked, (m.cycle, (m.is_host, (m.is_ready, m.users))))))))
    }

    open spec fn bytes(m: ClientRoomStateModel) -> Seq<u8> {
        <(RoomId, (RoomState, (bool, (bool, (bool, (bool, (bool, IdTable<UserInfo>))))))) as BinaryData>::bytes((m.id, (m.state, (m.live, (m.locked, (m.cycle, (m.is_host, (m.is_ready, m.users))))))))
    }

    open spec fn parse(b: Seq<u8>) -> Result<(ClientRoomStateModel, int), BinError> {
        match <(RoomId, (RoomState, (bool, (bool, (bool, (bool, (bool, IdTable<UserInfo>))))))) as BinaryData>::parse(b) {
            Ok((p, n)) => Ok((ClientRoomStateModel { id: p.0, state: p.1.0, live: p.1.1.0, locked: p.1.1.1.0, cycle: p.1.1.1.1.0, is_host: p.1.1.1.1.1.0, is_ready: p.1.1.1.1.1.1.0, users: p.1.1.1.1.1.1.1 }, n)),
            Err(e) => Err(e),
        }
    }

    fn read_binary(r: &mut BinaryReader<'_>) -> (res: Result<ClientRoomState, BinError>) {
        match <(RoomId, (RoomState, (bool, (bool, (bool, (bool, (bool, IdTable<UserInfo>))))))) as BinaryData>::read_binary(r) {
            Ok((id, (state, (live, (locked, (cycle, (is_host, (is_ready, users)))))))) => Ok(ClientRoomState { id, state, live, locked, cycle, is_host, is_ready, users }),
            Err(e) => Err(e),
        }
    }

    fn write_binary(&self, out: &mut Vec<u8>) {
        bin::write8(&self.id, &self.state, &self.live, &self.locked, &self.cycle, &self.is_host, &self.is_ready, &self.users, out);
    }

    proof fn lemma_round_trip(m: ClientRoomStateModel, rest: Seq<u8>) {
        <(RoomId, (RoomState, (bool, (bool, (bool, (bool, (bool, IdTable<UserInfo>))))))) as BinaryData>::lemma_round_trip((m.id, (m.state, (m.live, (m.locked, (m.cycle, (m.is_host, (m.is_ready, m.users))))))), rest);
    }

    proof fn lemma_parse_len(b: Seq<u8>) {
        <(RoomId, (RoomState, (bool, (bool, (bool, (bool, (bool, IdTable<UserInfo>))))))) as BinaryData>::lemma_parse_len(b);
    }
}

/// What a client learns of the room it joins.
#[derive(Debug, PartialEq, Eq)]
pub struct JoinRoomResponse {
    pub state: RoomState,
    pub users: Vec<UserInfo>,
    pub live: bool,
}

/// What a [`JoinRoomResponse`] means.
#[verifier::ext_equal]
pub struct JoinRoomResponseModel {
    pub state: RoomState,
    pub users: Seq<UserInfoModel>,
    pub live: bool,
}

impl BinaryData for JoinRoomResponse {
    type Model = JoinRoomResponseModel;

    open spec fn model(&self) -> JoinRoomResponseModel {
        JoinRoomResponseModel { state: self.state.model(), users: self.users.model(), live: self.live.model() }
    }

    open spec fn encodable(m: JoinRoomResponseModel) -> bool {
        <(RoomState, (Vec<UserInfo>, bool)) as BinaryData>::encodable((m.state, (m.users, m.live)))
    }

    open spec fn bytes(m: JoinRoomResponseModel) -> Seq<u8> {
        <(RoomState, (Vec<UserInfo>, bool)) as BinaryData>::bytes((m.state, (m.users, m.live)))
    }

    open spec fn parse(b: Seq<u8>) -> Result<(JoinRoomResponseModel, int), BinError> {
        match <(RoomState, (Vec<UserInfo>, bool)) as BinaryData>::parse(b) {
            Ok((p, n)) => Ok((JoinRoomResponseModel { state: p.0, users: p.1.0, live: p.1.1 }, n)),
            Err(e) => Err(e),
        }
    }

    fn read_binary(r: &mut BinaryReader<'_>) -> (res: Result<JoinRoomResponse, BinError>) {
        match <(RoomState, (Vec<UserInfo>, bool)) as BinaryData>::read_binary(r) {
            Ok((state, (users, live))) => Ok(JoinRoomResponse { state, users, live }),
            Err(e) => Err(e),
        }
    }

    fn write_binary(&self, out: &mut Vec<u8>) {
        bin::write3(&self.state, &self.users, &self.live, out);
    }

    proof fn lemma_round_trip(m: JoinRoomResponseModel, rest: Seq<u8>) {
        <(RoomState, (Vec<UserInfo>, bool)) as BinaryData>::lemma_round_trip((m.state, (m.users, m.live)), rest);
    }

    proof fn lemma_parse_len(b: Seq<u8>) {
        <(RoomState, (Vec<UserInfo>, bool)) as BinaryData>::lemma_parse_len(b);
    }
}

/// What the server tells a client.
#[derive(Debug, PartialEq, Eq)]
pub enum ServerCommand {
    Pong,
    Authenticate(Result<(UserInfo, Option<ClientRoomState>), String>),
    Chat(Result<(), String>),
    Touches { player: i32, frames: Arc<Vec<TouchFrame>> },
    Judges { player: i32, judges: Arc<Vec<JudgeEvent>> },
    Message(Message),
    ChangeState(RoomState),
    ChangeHost(bool),
    CreateRoom(Result<(), String>),
    JoinRoom(Result<JoinRoomResponse, String>),
    OnJoinRoom(UserInfo),
    LeaveRoom(Result<(), String>),
    LockRoom(Result<(), String>),
    CycleRoom(Result<(), String>),
    SelectChart(Result<(), String>),
    RequestStart(Result<(), String>),
    Ready(Result<(), String>),
    CancelReady(Result<(), String>),
    Played(Result<(), String>),
    Abort(Result<(), String>),
    /// Whether a chart of the host is being shared, and which.
    ChangeLocalChart { local: bool, chart_id: String },
    /// The host is to hand out the shared chart.
    StartServing { chart_id: String, chart_name: String },
    /// The player is to fetch the shared chart.
    StartDownload {
        host_id: i32,
        host_name: String,
        addr: String,
        port: u16,
        chart_id: String,
        chart_name: String,
    },
    /// Every player has got the shared chart.
    HostReady,
    /// The host has stopped sharing.
    LocalChartCanceled,
    SelectLocalChart(Result<(), String>),
    SelectOnlineChart(Result<(), String>),
    SendChart(Result<(), String>),
    DownloadReady(Result<(), String>),
    CancelLocalChart(Result<(), String>),
    CancelDownloadReady(Result<(), String>),
    UploadChart(Result<(), String>),
    DownloadChart(Result<Vec<u8>, String>),
}

/// What a [`ServerCommand`] means.
#[verifier::ext_equal]
pub enum ServerCommandModel {
    Pong,
    Authenticate(Result<(UserInfoModel, Option<ClientRoomStateModel>), Seq<char>>),
    Chat(Result<(), Seq<char>>),
    Touches { player: i32, frames: Seq<TouchFrameModel> },
    Judges { player: i32, judges: Seq<JudgeEvent> },
    Message(MessageModel),
    ChangeState(RoomState),
    ChangeHost(bool),
    CreateRoom(Result<(), Seq<char>>),
    JoinRoom(Result<JoinRoomResponseModel, Seq<char>>),
    OnJoinRoom(UserInfoModel),
    LeaveRoom(Result<(), Seq<char>>),
    LockRoom(Result<(), Seq<char>>),
    CycleRoom(Result<(), Seq<char>>),
    SelectChart(Result<(), Seq<char>>),
    RequestStart(Result<(), Seq<char>>),
    Ready(Result<(), Seq<char>>),
    CancelReady(Result<(), Seq<char>>),
    Played(Result<(), Seq<char>>),
    Abort(Result<(), Seq<char>>),
    ChangeLocalChart { local: bool, chart_id: Seq<char> },
    StartServing { chart_id: Seq<char>, chart_name: Seq<char> },
    StartDownload {
        host_id: i32,
        host_name: Seq<char>,
        addr: Seq<char>,
        port: u16,
        chart_id: Seq<char>,
        chart_name: Seq<char>,
    },
    HostReady,
    LocalChartCanceled,
    SelectLocalChart(Result<(), Seq<char>>),
    SelectOnlineChart(Result<(), Seq<char>>),
    SendChart(Result<(), Seq<char>>),
    DownloadReady(Result<(), Seq<char>>),
    CancelLocalChart(Result<(), Seq<char>>),
    CancelDownloadReady(Result<(), Seq<char>>),
    UploadChart(Result<(), Seq<char>>),
    DownloadChart(Result<Seq<u8>, Seq<char>>),
}

impl BinaryData for ServerCommand {
    type Model = ServerCommandModel;

    open spec fn model(&self) -> ServerCommandModel {
        match *self {
            ServerCommand::Pong => ServerCommandModel::Pong,
            ServerCommand::Authenticate(x) => ServerCommandModel::Authenticate(x.model()),
            ServerCommand::Chat(x) => ServerCommandModel::Chat(x.model()),
            ServerCommand::Touches { player, frames } => ServerCommandModel::Touches { player: player.model(), frames: frames.model() },
            ServerCommand::Judges { player, judges } => ServerCommandModel::Judges { player: player.model(), judges: judges.model() },
            ServerCommand::Message(x) => ServerCommandModel::Message(x.model()),
            ServerCommand::ChangeState(x) => ServerCommandModel::ChangeState(x.model()),
            ServerCommand::ChangeHost(x) => ServerCommandModel::ChangeHost(x.model()),
            ServerCommand::CreateRoom(x) => ServerCommandModel::CreateRoom(x.model()),
            ServerCommand::JoinRoom(x) => ServerCommandModel::JoinRoom(x.model()),
            ServerCommand::OnJoinRoom(x) => ServerCommandModel::OnJoinRoom(x.model()),
            ServerCommand::LeaveRoom(x) => ServerCommandModel::LeaveRoom(x.model()),
            ServerCommand::LockRoom(x) => ServerCommandModel::LockRoom(x.model()),
            ServerCommand::CycleRoom(x) => ServerCommandModel::CycleRoom(x.model()),
            ServerCommand::SelectChart(x) => ServerCommandModel::SelectChart(x.model()),
            ServerCommand::RequestStart(x) => ServerCommandModel::RequestStart(x.model()),
            ServerCommand::Ready(x) => ServerCommandModel::Ready(x.model()),
            ServerCommand::CancelReady(x) => ServerCommandModel::CancelReady(x.model()),
            ServerCommand::Played(x) => ServerCommandModel::Played(x.model()),
            ServerCommand::Abort(x) => ServerCommandModel::Abort(x.model()),
            ServerCommand::ChangeLocalChart { local, chart_id } => ServerCommandModel::ChangeLocalChart { local: local.model(), chart_id: chart_id.model() },
            ServerCommand::StartServing { chart_id, chart_name } => ServerCommandModel::StartServing { chart_id: chart_id.model(), chart_name: chart_name.model() },
            ServerCommand::StartDownload { host_id, host_name, addr, port, chart_id, chart_name } => ServerCommandModel::StartDownload { host_id: host_id.model(), host_name: host_name.model(), addr: addr.model(), port: port.model(), chart_id: chart_id.model(), chart_name: chart_name.model() },
            ServerCommand::HostReady => ServerCommandModel::HostReady,
            ServerCommand::LocalChartCanceled => ServerCommandModel::LocalChartCanceled,
            ServerCommand::SelectLocalChart(x) => ServerCommandModel::SelectLocalChart(x.model()),
            ServerCommand::SelectOnlineChart(x) => ServerCommandModel::SelectOnlineChart(x.model()),
            ServerCommand::SendChart(x) => ServerCommandModel::SendChart(x.model()),
            ServerCommand::DownloadReady(x) => ServerCommandModel::DownloadReady(x.model()),
            ServerCommand::CancelLocalChart(x) => ServerCommandModel::CancelLocalChart(x.model()),
            ServerCommand::CancelDownloadReady(x) => ServerCommandModel::CancelDownloadReady(x.model()),
            ServerCommand::UploadChart(x) => ServerCommandModel::UploadChart(x.model()),
            ServerCommand::DownloadChart(x) => ServerCommandModel::DownloadChart(x.model()),
        }
    }

    open spec fn encodable(m: ServerCommandModel) -> bool {
        match m {
            ServerCommandModel::Pong => true,
            ServerCommandModel::Authenticate(x) => <Result<(UserInfo, Option<ClientRoomState>), String> as BinaryData>::encodable(x),
            ServerCommandModel::Chat(x) => <Result<(), String> as BinaryData>::encodable(x),
            ServerCommandModel::Touches { player, frames } => <(i32, Arc<Vec<TouchFrame>>) as BinaryData>::encodable((player, frames)),
            ServerCommandModel::Judges { player, judges } => <(i32, Arc<Vec<JudgeEvent>>) as BinaryData>::encodable((player, judges)),
            ServerCommandModel::Message(x) => Message::encodable(x),
            ServerCommandModel::ChangeState(x) => RoomState::encodable(x),
            ServerCommandModel::ChangeHost(x) => bool::encodable(x),
            ServerCommandModel::CreateRoom(x) => <Result<(), String> as BinaryData>::encodable(x),
            ServerCommandModel::JoinRoom(x) => <Result<JoinRoomResponse, String> as BinaryData>::encodable(x),
            ServerCommandModel::OnJoinRoom(x) => UserInfo::encodable(x),
            ServerCommandModel::LeaveRoom(x) => <Result<(), String> as BinaryData>::encodable(x),
            ServerCommandModel::LockRoom(x) => <Result<(), String> as BinaryData>::encodable(x),
            ServerCommandModel::CycleRoom(x) => <Result<(), String> as BinaryData>::encodable(x),
            ServerCommandModel::SelectChart(x) => <Result<(), String> as BinaryData>::encodable(x),
            ServerCommandModel::RequestStart(x) => <Result<(), String> as BinaryData>::encodable(x),
            ServerCommandModel::Ready(x) => <Result<(), String> as BinaryData>::encodable(x),
            ServerCommandModel::CancelReady(x) => <Result<(), String> as BinaryData>::encodable(x),
            ServerCommandModel::Played(x) => <Result<(), String> as BinaryData>::encodable(x),
            ServerCommandModel::Abort(x) => <Result<(), String> as BinaryData>::encodable(x),
            ServerCommandModel::ChangeLocalChart { local, chart_id } => <(bool, String) as BinaryData>::encodable((local, chart_id)),
            ServerCommandModel::StartServing { chart_id, chart_name } => <(String, String) as BinaryData>::encodable((chart_id, chart_name)),
            ServerCommandModel::StartDownload { host_id, host_name, addr, port, chart_id, chart_name } => <(i32, (String, (String, (u16, (String, String))))) as BinaryData>::encodable((host_id, (host_name, (addr, (port, (chart_id, chart_name)))))),
            ServerCommandModel::HostReady => true,
            ServerCommandModel::LocalChartCanceled => true,
            ServerCommandModel::SelectLocalChart(x) => <Result<(), String> as BinaryData>::encodable(x),
            ServerCommandModel::SelectOnlineChart(x) => <Result<(), String> as BinaryData>::encodable(x),
            ServerCommandModel::SendChart(x) => <Result<(), String> as BinaryData>::encodable(x),
            ServerCommandModel::DownloadReady(x) => <Result<(), String> as BinaryData>::encodable(x),
            ServerCommandModel::CancelLocalChart(x) => <Result<(), String> as BinaryData>::encodable(x),
            ServerCommandModel::CancelDownloadReady(x) => <Result<(), String> as BinaryData>::encodable(x),
            ServerCommandModel::UploadChart(x) => <Result<(), String> as BinaryData>::encodable(x),
            ServerCommandModel::DownloadChart(x) => <Result<Vec<u8>, String> as BinaryData>::encodable(x),
        }
    }

    open spec fn bytes(m: ServerCommandModel) -> Seq<u8> {
        match m {
            ServerCommandModel::Pong => seq![0u8],
            ServerCommandModel::Authenticate(x) => seq![1u8] + <Result<(UserInfo, Option<ClientRoomState>), String> as BinaryData>::bytes(x),
            ServerCommandModel::Chat(x) => seq![2u8] + <Result<(), String> as BinaryData>::bytes(x),
            ServerCommandModel::Touches { player, frames } => seq![3u8] + <(i32, Arc<Vec<TouchFrame>>) as BinaryData>::bytes((player, frames)),
            ServerCommandModel::Judges { player, judges } => seq![4u8] + <(i32, Arc<Vec<JudgeEvent>>) as BinaryData>::bytes((player, judges)),
            ServerCommandModel::Message(x) => seq![5u8] + Message::bytes(x),
            ServerCommandModel::ChangeState(x) => seq![6u8] + RoomState::bytes(x),
            ServerCommandModel::ChangeHost(x) => seq![7u8] + bool::bytes(x),
            ServerCommandModel::CreateRoom(x) => seq![8u8] + <Result<(), String> as BinaryData>::bytes(x),
            ServerCommandModel::JoinRoom(x) => seq![9u8] + <Result<JoinRoomResponse, String> as BinaryData>::bytes(x),
            ServerCommandModel::OnJoinRoom(x) => seq![10u8] + UserInfo::bytes(x),
            ServerCommandModel::LeaveRoom(x) => seq![11u8] + <Result<(), String> as BinaryData>::bytes(x),
            ServerCommandModel::LockRoom(x) => seq![12u8] + <Result<(), String> as BinaryData>::bytes(x),
            ServerCommandModel::CycleRoom(x) => seq![13u8] + <Result<(), String> as BinaryData>::bytes(x),
            ServerCommandModel::SelectChart(x) => seq![14u8] + <Result<(), String> as BinaryData>::bytes(x),
            ServerCommandModel::RequestStart(x) => seq![15u8] + <Result<(), String> as BinaryData>::bytes(x),
            ServerCommandModel::Ready(x) => seq![16u8] + <Result<(), String> as BinaryData>::bytes(x),
            ServerCommandModel::CancelReady(x) => seq![17u8] + <Result<(), String> as BinaryData>::bytes(x),
            ServerCommandModel::Played(x) => seq![18u8] + <Result<(), String> as BinaryData>::bytes(x),
            ServerCommandModel::Abort(x) => seq![19u8] + <Result<(), String> as BinaryData>::bytes(x),
            ServerCommandModel::ChangeLocalChart { local, chart_id } => seq![20u8] + <(bool, String) as BinaryData>::bytes((local, chart_id)),
            ServerCommandModel::StartServing { chart_id, chart_name } => seq![21u8] + <(String, String) as BinaryData>::bytes((chart_id, chart_name)),
            ServerCommandModel::StartDownload { host_id, host_name, addr, port, chart_id, chart_name } => seq![22u8] + <(i32, (String, (String, (u16, (String, String))))) as BinaryData>::bytes((host_id, (host_name, (addr, (port, (chart_id, chart_name)))))),
            ServerCommandModel::HostReady => seq![23u8],
            ServerCommandModel::LocalChartCanceled => seq![24u8],
            ServerCommandModel::SelectLocalChart(x) => seq![25u8] + <Result<(), String> as BinaryData>::bytes(x),
            ServerCommandModel::SelectOnlineChart(x) => seq![26u8] + <Result<(), String> as BinaryData>::bytes(x),
            ServerCommandModel::SendChart(x) => seq![27u8] + <Result<(), String> as BinaryData>::bytes(x),
            ServerCommandModel::DownloadReady(x) => seq![28u8] + <Result<(), String> as BinaryData>::bytes(x),
            ServerCommandModel::CancelLocalChart(x) => seq![29u8] + <Result<(), String> as BinaryData>::bytes(x),
            ServerCommandModel::CancelDownloadReady(x) => seq![30u8] + <Result<(), String> as BinaryData>::bytes(x),
            ServerCommandModel::UploadChart(x) => seq![31u8] + <Result<(), String> as BinaryData>::bytes(x),
            ServerCommandModel::DownloadChart(x) => seq![32u8] + <Result<Vec<u8>, String> as BinaryData>::bytes(x),
        }
    }

    open spec fn parse(b: Seq<u8>) -> Result<(ServerCommandModel, int), BinError> {
        if b.len() == 0 {
            Err(BinError::UnexpectedEof)
        } else {
            match b[0] {
                0u8 => Ok((ServerCommandModel::Pong, 1)),
                1u8 => match <Result<(UserInfo, Option<ClientRoomState>), String> as BinaryData>::parse(b.skip(1)) {
                    Ok((p, n)) => Ok((ServerCommandModel::Authenticate(p), n + 1)),
                    Err(e) => Err(e),
                },
                2u8 => match <Result<(), String> as BinaryData>::parse(b.skip(1)) {
                    Ok((p, n)) => Ok((ServerCommandModel::Chat(p), n + 1)),
                    Err(e) => Err(e),
                },
                3u8 => match <(i32, Arc<Vec<TouchFrame>>) as BinaryData>::parse(b.skip(1)) {
                    Ok((p, n)) => Ok((ServerCommandModel::Touches { player: p.0, frames: p.1 }, n + 1)),
                    Err(e) => Err(e),
                },
                4u8 => match <(i32, Arc<Vec<JudgeEvent>>) as BinaryData>::parse(b.skip(1)) {
                    Ok((p, n)) => Ok((ServerCommandModel::Judges { player: p.0, judges: p.1 }, n + 1)),
                    Err(e) => Err(e),
                },
                5u8 => match Message::parse(b.skip(1)) {
                    Ok((p, n)) => Ok((ServerCommandModel::Message(p), n + 1)),
                    Err(e) => Err(e),
                },
                6u8 => match RoomState::parse(b.skip(1)) {
                    Ok((p, n)) => Ok((ServerCommandModel::ChangeState(p), n + 1)),
                    Err(e) => Err(e),
                },
                7u8 => match bool::parse(b.skip(1)) {
                    Ok((p, n)) => Ok((ServerCommandModel::ChangeHost(p), n + 1)),
                    Err(e) => Err(e),
                },
                8u8 => match <Result<(), String> as BinaryData>::parse(b.skip(1)) {
                    Ok((p, n)) => Ok((ServerCommandModel::CreateRoom(p), n + 1)),
                    Err(e) => Err(e),
                },
                9u8 => match <Result<JoinRoomResponse, String> as BinaryData>::parse(b.skip(1)) {
                    Ok((p, n)) => Ok((ServerCommandModel::JoinRoom(p), n + 1)),
                    Err(e) => Err(e),
                },
                10u8 => match UserInfo::parse(b.skip(1)) {
                    Ok((p, n)) => Ok((ServerCommandModel::OnJoinRoom(p), n + 1)),
                    Err(e) => Err(e),
                },
                11u8 => match <Result<(), String> as BinaryData>::parse(b.skip(1)) {
                    Ok((p, n)) => Ok((ServerCommandModel::LeaveRoom(p), n + 1)),
                    Err(e) => Err(e),
                },
                12u8 => match <Result<(), String> as BinaryData>::parse(b.skip(1)) {
                    Ok((p, n)) => Ok((ServerCommandModel::LockRoom(p), n + 1)),
                    Err(e) => Err(e),
                },
                13u8 => match <Result<(), String> as BinaryData>::parse(b.skip(1)) {
                    Ok((p, n)) => Ok((ServerCommandModel::CycleRoom(p), n + 1)),
                    Err(e) => Err(e),
                },
                14u8 => match <Result<(), String> as BinaryData>::parse(b.skip(1)) {
                    Ok((p, n)) => Ok((ServerCommandModel::SelectChart(p), n + 1)),
                    Err(e) => Err(e),
                },
                15u8 => match <Result<(), String> as BinaryData>::parse(b.skip(1)) {
                    Ok((p, n)) => Ok((ServerCommandModel::RequestStart(p), n + 1)),
                    Err(e) => Err(e),
                },
                16u8 => match <Result<(), String> as BinaryData>::parse(b.skip(1)) {
                    Ok((p, n)) => Ok((ServerCommandModel::Ready(p), n + 1)),
                    Err(e) => Err(e),
                },
                17u8 => match <Result<(), String> as BinaryData>::parse(b.skip(1)) {
                    Ok((p, n)) => Ok((ServerCommandModel::CancelReady(p), n + 1)),
                    Err(e) => Err(e),
                },
                18u8 => match <Result<(), String> as BinaryData>::parse(b.skip(1)) {
                    Ok((p, n)) => Ok((ServerCommandModel::Played(p), n + 1)),
                    Err(e) => Err(e),
                },
                19u8 => match <Result<(), String> as BinaryData>::parse(b.skip(1)) {
                    Ok((p, n)) => Ok((ServerCommandModel::Abort(p), n + 1)),
                    Err(e) => Err(e),
                },
                20u8 => match <(bool, String) as BinaryData>::parse(b.skip(1)) {
                    Ok((p, n)) => Ok((ServerCommandModel::ChangeLocalChart { local: p.0, chart_id: p.1 }, n + 1)),
                    Err(e) => Err(e),
                },
                21u8 => match <(String, String) as BinaryData>::parse(b.skip(1)) {
                    Ok((p, n)) => Ok((ServerCommandModel::StartServing { chart_id: p.0, chart_name: p.1 }, n + 1)),
                    Err(e) => Err(e),
                },
                22u8 => match <(i32, (String, (String, (u16, (String, String))))) as BinaryData>::parse(b.skip(1)) {
                    Ok((p, n)) => Ok((ServerCommandModel::StartDownload { host_id: p.0, host_name: p.1.0, addr: p.1.1.0, port: p.1.1.1.0, chart_id: p.1.1.1.1.0, chart_name: p.1.1.1.1.1 }, n + 1)),
                    Err(e) => Err(e),
                },
                23u8 => Ok((ServerCommandModel::HostReady, 1)),
                24u8 => Ok((ServerCommandModel::LocalChartCanceled, 1)),
                25u8 => match <Result<(), String> as BinaryData>::parse(b.skip(1)) {
                    Ok((p, n)) => Ok((ServerCommandModel::SelectLocalChart(p), n + 1)),
                    Err(e) => Err(e),
                },
                26u8 => match <Result<(), String> as BinaryData>::parse(b.skip(1)) {
                    Ok((p, n)) => Ok((ServerCommandModel::SelectOnlineChart(p), n + 1)),
                    Err(e) => Err(e),
                },
                27u8 => match <Result<(), String> as BinaryData>::parse(b.skip(1)) {
                    Ok((p, n)) => Ok((ServerCommandModel::SendChart(p), n + 1)),
                    Err(e) => Err(e),
                },
                28u8 => match <Result<(), String> as BinaryData>::parse(b.skip(1)) {
                    Ok((p, n)) => Ok((ServerCommandModel::DownloadReady(p), n + 1)),
                    Err(e) => Err(e),
                },
                29u8 => match <Result<(), String> as BinaryData>::parse(b.skip(1)) {
                    Ok((p, n)) => Ok((ServerCommandModel::CancelLocalChart(p), n + 1)),
                    Err(e) => Err(e),
                },
                30u8 => match <Result<(), String> as BinaryData>::parse(b.skip(1)) {
                    Ok((p, n)) => Ok((ServerCommandModel::CancelDownloadReady(p), n + 1)),
                    Err(e) => Err(e),
                },
                31u8 => match <Result<(), String> as BinaryData>::parse(b.skip(1)) {
                    Ok((p, n)) => Ok((ServerCommandModel::UploadChart(p), n + 1)),
                    Err(e) => Err(e),
                },
                32u8 => match <Result<Vec<u8>, String> as BinaryData>::parse(b.skip(1)) {
                    Ok((p, n)) => Ok((ServerCommandModel::DownloadChart(p), n + 1)),
                    Err(e) => Err(e),
                },
                _ => Err(BinError::InvalidVariant),
            }
        }
    }

    #[verifier::rlimit(60)]
    #[verifier::spinoff_prover]
    fn read_binary(r: &mut BinaryReader<'_>) -> (res: Result<ServerCommand, BinError>) {
        let ghost start = r@;
        let tag: u8 = match r.byte() {
            Ok(tag) => tag,
            Err(e) => {
                return Err(e);
            },
        };
        if tag == 0 {
            return Ok(ServerCommand::Pong);
        }
        if tag == 1 {
            return match <Result<(UserInfo, Option<ClientRoomState>), String> as BinaryData>::read_binary(r) {
                Ok(x) => {
                    proof {
                        bin::lemma_after_tag::<Result<(UserInfo, Option<ClientRoomState>), String>>(start);
                    }
                    Ok(ServerCommand::Authenticate(x))
                },
                Err(e) => Err(e),
            };
        }
        if tag == 2 {
            return match <Result<(), String> as BinaryData>::read_binary(r) {
                Ok(x) => {
                    proof {
                        bin::lemma_after_tag::<Result<(), String>>(start);
                    }
                    Ok(ServerCommand::Chat(x))
                },
                Err(e) => Err(e),
            };
        }
        if tag == 3 {
            return match <(i32, Arc<Vec<TouchFrame>>) as BinaryData>::read_binary(r) {
                Ok((player, frames)) => {
                    proof {
                        bin::lemma_after_tag::<(i32, Arc<Vec<TouchFrame>>)>(start);
                    }
                    Ok(ServerCommand::Touches { player, frames })
                },
                Err(e) => Err(e),
            };
        }
        if tag == 4 {
            return match <(i32, Arc<Vec<JudgeEvent>>) as BinaryData>::read_binary(r) {
                Ok((player, judges)) => {
                    proof {
                        bin::lemma_after_tag::<(i32, Arc<Vec<JudgeEvent>>)>(start);
                    }
                    Ok(ServerCommand::Judges { player, judges })
                },
                Err(e) => Err(e),
            };
        }
        if tag == 5 {
            return match Message::read_binary(r) {
                Ok(x) => {
                    proof {
                        bin::lemma_after_tag::<Message>(start);
                    }
                    Ok(ServerCommand::Message(x))
                },
                Err(e) => Err(e),
            };
        }
        if tag == 6 {
            return match RoomState::read_binary(r) {
                Ok(x) => {
                    proof {
                        bin::lemma_after_tag::<RoomState>(start);
                    }
                    Ok(ServerCommand::ChangeState(x))
                },
                Err(e) => Err(e),
            };
        }
        if tag == 7 {
            return match bool::read_binary(r) {
                Ok(x) => {
                    proof {
                        bin::lemma_after_tag::<bool>(start);
                    }
                    Ok(ServerCommand::ChangeHost(x))
                },
                Err(e) => Err(e),
            };
        }
        if tag == 8 {
            return match <Result<(), String> as BinaryData>::read_binary(r) {
                Ok(x) => {
                    proof {
                        bin::lemma_after_tag::<Result<(), String>>(start);
                    }
                    Ok(ServerCommand::CreateRoom(x))
                },
                Err(e) => Err(e),
            };
        }
        if tag == 9 {
            return match <Result<JoinRoomResponse, String> as BinaryData>::read_binary(r) {
                Ok(x) => {
                    proof {
                        bin::lemma_after_tag::<Result<JoinRoomResponse, String>>(start);
                    }
                    Ok(ServerCommand::JoinRoom(x))
                },
                Err(e) => Err(e),
            };
        }
        if tag == 10 {
            return match UserInfo::read_binary(r) {
                Ok(x) => {
                    proof {
                        bin::lemma_after_tag::<UserInfo>(start);
                    }
                    Ok(ServerCommand::OnJoinRoom(x))
                },
                Err(e) => Err(e),
            };
        }
        if tag == 11 {
            return match <Result<(), String> as BinaryData>::read_binary(r) {
                Ok(x) => {
                    proof {
                        bin::lemma_after_tag::<Result<(), String>>(start);
                    }
                    Ok(ServerCommand::LeaveRoom(x))
                },
                Err(e) => Err(e),
            };
        }
        if tag == 12 {
            return match <Result<(), String> as BinaryData>::read_binary(r) {
                Ok(x) => {
                    proof {
                        bin::lemma_after_tag::<Result<(), String>>(start);
                    }
                    Ok(ServerCommand::LockRoom(x))
                },
                Err(e) => Err(e),
            };
        }
        if tag == 13 {
            return match <Result<(), String> as BinaryData>::read_binary(r) {
                Ok(x) => {
                    proof {
                        bin::lemma_after_tag::<Result<(), String>>(start);
                    }
                    Ok(ServerCommand::CycleRoom(x))
                },
                Err(e) => Err(e),
            };
        }
        if tag == 14 {
            return match <Result<(), String> as BinaryData>::read_binary(r) {
                Ok(x) => {
                    proof {
                        bin::lemma_after_tag::<Result<(), String>>(start);
                    }
                    Ok(ServerCommand::SelectChart(x))
                },
                Err(e) => Err(e),
            };
        }
        if tag == 15 {
            return match <Result<(), String> as BinaryData>::read_binary(r) {
                Ok(x) => {
                    proof {
                        bin::lemma_after_tag::<Result<(), String>>(start);
                    }
                    Ok(ServerCommand::RequestStart(x))
                },
                Err(e) => Err(e),
            };
        }
        if tag == 16 {
            return match <Result<(), String> as BinaryData>::read_binary(r) {
                Ok(x) => {
                    proof {
                        bin::lemma_after_tag::<Result<(), String>>(start);
                    }
                    Ok(ServerCommand::Ready(x))
                },
                Err(e) => Err(e),
            };
        }
        if tag == 17 {
            return match <Result<(), String> as BinaryData>::read_binary(r) {
                Ok(x) => {
                    proof {
                        bin::lemma_after_tag::<Result<(), String>>(start);
                    }
                    Ok(ServerCommand::CancelReady(x))
                },
                Err(e) => Err(e),
            };
        }
        if tag == 18 {
            return match <Result<(), String> as BinaryData>::read_binary(r) {
                Ok(x) => {
                    proof {
                        bin::lemma_after_tag::<Result<(), String>>(start);
                    }
                    Ok(ServerCommand::Played(x))
                },
                Err(e) => Err(e),
            };
        }
        if tag == 19 {
            return match <Result<(), String> as BinaryData>::read_binary(r) {
                Ok(x) => {
                    proof {
                        bin::lemma_after_tag::<Result<(), String>>(start);
                    }
                    Ok(ServerCommand::Abort(x))
                },
                Err(e) => Err(e),
            };
        }
        if tag == 20 {
            return match <(bool, String) as BinaryData>::read_binary(r) {
                Ok((local, chart_id)) => {
                    proof {
                        bin::lemma_after_tag::<(bool, String)>(start);
                    }
                    Ok(ServerCommand::ChangeLocalChart { local, chart_id })
                },
                Err(e) => Err(e),
            };
        }
        if tag == 21 {
            return match <(String, String) as BinaryData>::read_binary(r) {
                Ok((chart_id, chart_name)) => {
                    proof {
                        bin::lemma_after_tag::<(String, String)>(start);
                    }
                    Ok(ServerCommand::StartServing { chart_id, chart_name })
                },
                Err(e) => Err(e),
            };
        }
        if tag == 22 {
            return match <(i32, (String, (String, (u16, (String, String))))) as BinaryData>::read_binary(r) {
                Ok((host_id, (host_name, (addr, (port, (chart_id, chart_name)))))) => {
                    proof {
                        bin::lemma_after_tag::<(i32, (String, (String, (u16, (String, String)))))>(start);
                    }
                    Ok(ServerCommand::StartDownload { host_id, host_name, addr, port, chart_id, chart_name })
                },
                Err(e) => Err(e),
            };
        }
        if tag == 23 {
            return Ok(ServerCommand::HostReady);
        }
        if tag == 24 {
            return Ok(ServerCommand::LocalChartCanceled);
        }
        if tag == 25 {
            return match <Result<(), String> as BinaryData>::read_binary(r) {
                Ok(x) => {
                    proof {
                        bin::lemma_after_tag::<Result<(), String>>(start);
                    }
                    Ok(ServerCommand::SelectLocalChart(x))
                },
                Err(e) => Err(e),
            };
        }
        if tag == 26 {
            return match <Result<(), String> as BinaryData>::read_binary(r) {
                Ok(x) => {
                    proof {
                        bin::lemma_after_tag::<Result<(), String>>(start);
                    }
                    Ok(ServerCommand::SelectOnlineChart(x))
                },
                Err(e) => Err(e),
            };
        }
        if tag == 27 {
            return match <Result<(), String> as BinaryData>::read_binary(r) {
                Ok(x) => {
                    proof {
                        bin::lemma_after_tag::<Result<(), String>>(start);
                    }
                    Ok(ServerCommand::SendChart(x))
                },
                Err(e) => Err(e),
            };
        }
        if tag == 28 {
            return match <Result<(), String> as BinaryData>::read_binary(r) {
                Ok(x) => {
                    proof {
                        bin::lemma_after_tag::<Result<(), String>>(start);
                    }
                    Ok(ServerCommand::DownloadReady(x))
                },
                Err(e) => Err(e),
            };
        }
        if tag == 29 {
            return match <Result<(), String> as BinaryData>::read_binary(r) {
                Ok(x) => {
                    proof {
                        bin::lemma_after_tag::<Result<(), String>>(start);
                    }
                    Ok(ServerCommand::CancelLocalChart(x))
                },
                Err(e) => Err(e),
            };
        }
        if tag == 30 {
            return match <Result<(), String> as BinaryData>::read_binary(r) {
                Ok(x) => {
                    proof {
                        bin::lemma_after_tag::<Result<(), String>>(start);
                    }
                    Ok(ServerCommand::CancelDownloadReady(x))
                },
                Err(e) => Err(e),
            };
        }
        if tag == 31 {
            return match <Result<(), String> as BinaryData>::read_binary(r) {
                Ok(x) => {
                    proof {
                        bin::lemma_after_tag::<Result<(), String>>(start);
                    }
                    Ok(ServerCommand::UploadChart(x))
                },
                Err(e) => Err(e),
            };
        }
        if tag == 32 {
            return match <Result<Vec<u8>, String> as BinaryData>::read_binary(r) {
                Ok(x) => {
                    proof {
                        bin::lemma_after_tag::<Result<Vec<u8>, String>>(start);
                    }
                    Ok(ServerCommand::DownloadChart(x))
                },
                Err(e) => Err(e),
            };
        }
        Err(BinError::InvalidVariant)
    }

    fn write_binary(&self, out: &mut Vec<u8>) {
        match self {
            ServerCommand::Pong => {
                out.push(0);
                assert(out@ =~= old(out)@ + Self::bytes(self.model()));
            },
            ServerCommand::Authenticate(x) => {
                out.push(1);
                x.write_binary(out);
                assert(out@ =~= old(out)@ + Self::bytes(self.model()));
            },
            ServerCommand::Chat(x) => {
                out.push(2);
                x.write_binary(out);
                assert(out@ =~= old(out)@ + Self::bytes(self.model()));
            },
            ServerCommand::Touches { player, frames } => {
                out.push(3);
                bin::write2(player, frames, out);
                assert(out@ =~= old(out)@ + Self::bytes(self.model()));
            },
            ServerCommand::Judges { player, judges } => {
                out.push(4);
                bin::write2(player, judges, out);
                assert(out@ =~= old(out)@ + Self::bytes(self.model()));
            },
            ServerCommand::Message(x) => {
                out.push(5);
                x.write_binary(out);
                assert(out@ =~= old(out)@ + Self::bytes(self.model()));
            },
            ServerCommand::ChangeState(x) => {
                out.push(6);
                x.write_binary(out);
                assert(out@ =~= old(out)@ + Self::bytes(self.model()));
            },
            ServerCommand::ChangeHost(x) => {
                out.push(7);
                x.write_binary(out);
                assert(out@ =~= old(out)@ + Self::bytes(self.model()));
            },
            ServerCommand::CreateRoom(x) => {
                out.push(8);
                x.write_binary(out);
                assert(out@ =~= old(out)@ + Self::bytes(self.model()));
            },
            ServerCommand::JoinRoom(x) => {
                out.push(9);
                x.write_binary(out);
                assert(out@ =~= old(out)@ + Self::bytes(self.model()));
            },
            ServerCommand::OnJoinRoom(x) => {
                out.push(10);
                x.write_binary(out);
                assert(out@ =~= old(out)@ + Self::bytes(self.model()));
            },
            ServerCommand::LeaveRoom(x) => {
                out.push(11);
                x.write_binary(out);
                assert(out@ =~= old(out)@ + Self::bytes(self.model()));
            },
            ServerCommand::LockRoom(x) => {
                out.push(12);
                x.write_binary(out);
                assert(out@ =~= old(out)@ + Self::bytes(self.model()));
            },
            ServerCommand::CycleRoom(x) => {
                out.push(13);
                x.write_binary(out);
                assert(out@ =~= old(out)@ + Self::bytes(self.model()));
            },
            ServerCommand::SelectChart(x) => {
                out.push(14);
                x.write_binary(out);
                assert(out@ =~= old(out)@ + Self::bytes(self.model()));
            },
            ServerCommand::RequestStart(x) => {
                out.push(15);
                x.write_binary(out);
                assert(out@ =~= old(out)@ + Self::bytes(self.model()));
            },
            ServerCommand::Ready(x) => {
                out.push(16);
                x.write_binary(out);
                assert(out@ =~= old(out)@ + Self::bytes(self.model()));
            },
            ServerCommand::CancelReady(x) => {
                out.push(17);
                x.write_binary(out);
                assert(out@ =~= old(out)@ + Self::bytes(self.model()));
            },
            ServerCommand::Played(x) => {
                out.push(18);
                x.write_binary(out);
                assert(out@ =~= old(out)@ + Self::bytes(self.model()));
            },
            ServerCommand::Abort(x) => {
                out.push(19);
                x.write_binary(out);
                assert(out@ =~= old(out)@ + Self::bytes(self.model()));
            },
            ServerCommand::ChangeLocalChart { local, chart_id } => {
                out.push(20);
                bin::write2(local, chart_id, out);
                assert(out@ =~= old(out)@ + Self::bytes(self.model()));
            },
            ServerCommand::StartServing { chart_id, chart_name } => {
                out.push(21);
                bin::write2(chart_id, chart_name, out);
                assert(out@ =~= old(out)@ + Self::bytes(self.model()));
            },
            ServerCommand::StartDownload { host_id, host_name, addr, port, chart_id, chart_name } => {
                out.push(22);
                bin::write6(host_id, host_name, addr, port, chart_id, chart_name, out);
                assert(out@ =~= old(out)@ + Self::bytes(self.model()));
            },
            ServerCommand::HostReady => {
                out.push(23);
                assert(out@ =~= old(out)@ + Self::bytes(self.model()));
            },
            ServerCommand::LocalChartCanceled => {
                out.push(24);
                assert(out@ =~= old(out)@ + Self::bytes(self.model()));
            },
            ServerCommand::SelectLocalChart(x) => {
                out.push(25);
                x.write_binary(out);
                assert(out@ =~= old(out)@ + Self::bytes(self.model()));
            },
            ServerCommand::SelectOnlineChart(x) => {
                out.push(26);
                x.write_binary(out);
                assert(out@ =~= old(out)@ + Self::bytes(self.model()));
            },
            ServerCommand::SendChart(x) => {
                out.push(27);
                x.write_binary(out);
                assert(out@ =~= old(out)@ + Self::bytes(self.model()));
            },
            ServerCommand::DownloadReady(x) => {
                out.push(28);
                x.write_binary(out);
                assert(out@ =~= old(out)@ + Self::bytes(self.model()));
            },
            ServerCommand::CancelLocalChart(x) => {
                out.push(29);
                x.write_binary(out);
                assert(out@ =~= old(out)@ + Self::bytes(self.model()));
            },
            ServerCommand::CancelDownloadReady(x) => {
                out.push(30);
                x.write_binary(out);
                assert(out@ =~= old(out)@ + Self::bytes(self.model()));
            },
            ServerCommand::UploadChart(x) => {
                out.push(31);
                x.write_binary(out);
                assert(out@ =~= old(out)@ + Self::bytes(self.model()));
            },
            ServerCommand::DownloadChart(x) => {
                out.push(32);
                x.write_binary(out);
                assert(out@ =~= old(out)@ + Self::bytes(self.model()));
            },
        }
    }

    proof fn lemma_round_trip(m: ServerCommandModel, rest: Seq<u8>) {
        let b = Self::bytes(m) + rest;
        match m {
            ServerCommandModel::Authenticate(x) => {
                assert(b.skip(1) =~= <Result<(UserInfo, Option<ClientRoomState>), String> as BinaryData>::bytes(x) + rest);
                <Result<(UserInfo, Option<ClientRoomState>), String> as BinaryData>::lemma_round_trip(x, rest);
            },
            ServerCommandModel::Chat(x) => {
                assert(b.skip(1) =~= <Result<(), String> as BinaryData>::bytes(x) + rest);
                <Result<(), String> as BinaryData>::lemma_round_trip(x, rest);
            },
            ServerCommandModel::Touches { player, frames } => {
                assert(b.skip(1) =~= <(i32, Arc<Vec<TouchFrame>>) as BinaryData>::bytes((player, frames)) + rest);
                <(i32, Arc<Vec<TouchFrame>>) as BinaryData>::lemma_round_trip((player, frames), rest);
            },
            ServerCommandModel::Judges { player, judges } => {
                assert(b.skip(1) =~= <(i32, Arc<Vec<JudgeEvent>>) as BinaryData>::bytes((player, judges)) + rest);
                <(i32, Arc<Vec<JudgeEvent>>) as BinaryData>::lemma_round_trip((player, judges), rest);
            },
            ServerCommandModel::Message(x) => {
                assert(b.skip(1) =~= Message::bytes(x) + rest);
                Message::lemma_round_trip(x, rest);
            },
            ServerCommandModel::ChangeState(x) => {
                assert(b.skip(1) =~= RoomState::bytes(x) + rest);
                RoomState::lemma_round_trip(x, rest);
            },
            ServerCommandModel::ChangeHost(x) => {
                assert(b.skip(1) =~= bool::bytes(x) + rest);
                bool::lemma_round_trip(x, rest);
            },
            ServerCommandModel::CreateRoom(x) => {
                assert(b.skip(1) =~= <Result<(), String> as BinaryData>::bytes(x) + rest);
                <Result<(), String> as BinaryData>::lemma_round_trip(x, rest);
            },
            ServerCommandModel::JoinRoom(x) => {
                assert(b.skip(1) =~= <Result<JoinRoomResponse, String> as BinaryData>::bytes(x) + rest);
                <Result<JoinRoomResponse, String> as BinaryData>::lemma_round_trip(x, rest);
            },
            ServerCommandModel::OnJoinRoom(x) => {
                assert(b.skip(1) =~= UserInfo::bytes(x) + rest);
                UserInfo::lemma_round_trip(x, rest);
            },
            ServerCommandModel::LeaveRoom(x) => {
                assert(b.skip(1) =~= <Result<(), String> as BinaryData>::bytes(x) + rest);
                <Result<(), String> as BinaryData>::lemma_round_trip(x, rest);
            },
            ServerCommandModel::LockRoom(x) => {
                assert(b.skip(1) =~= <Result<(), String> as BinaryData>::bytes(x) + rest);
                <Result<(), String> as BinaryData>::lemma_round_trip(x, rest);
            },
            ServerCommandModel::CycleRoom(x) => {
                assert(b.skip(1) =~= <Result<(), String> as BinaryData>::bytes(x) + rest);
                <Result<(), String> as BinaryData>::lemma_round_trip(x, rest);
            },
            ServerCommandModel::SelectChart(x) => {
                assert(b.skip(1) =~= <Result<(), String> as BinaryData>::bytes(x) + rest);
                <Result<(), String> as BinaryData>::lemma_round_trip(x, rest);
            },
            ServerCommandModel::RequestStart(x) => {
                assert(b.skip(1) =~= <Result<(), String> as BinaryData>::bytes(x) + rest);
                <Result<(), String> as BinaryData>::lemma_round_trip(x, rest);
            },
            ServerCommandModel::Ready(x) => {
                assert(b.skip(1) =~= <Result<(), String> as BinaryData>::bytes(x) + rest);
                <Result<(), String> as BinaryData>::lemma_round_trip(x, rest);
            },
            ServerCommandModel::CancelReady(x) => {
                assert(b.skip(1) =~= <Result<(), String> as BinaryData>::bytes(x) + rest);
                <Result<(), String> as BinaryData>::lemma_round_trip(x, rest);
            },
            ServerCommandModel::Played(x) => {
                assert(b.skip(1) =~= <Result<(), String> as BinaryData>::bytes(x) + rest);
                <Result<(), String> as BinaryData>::lemma_round_trip(x, rest);
            },
            ServerCommandModel::Abort(x) => {
                assert(b.skip(1) =~= <Result<(), String> as BinaryData>::bytes(x) + rest);
                <Result<(), String> as BinaryData>::lemma_round_trip(x, rest);
            },
            ServerCommandModel::ChangeLocalChart { local, chart_id } => {
                assert(b.skip(1) =~= <(bool, String) as BinaryData>::bytes((local, chart_id)) + rest);
                <(bool, String) as BinaryData>::lemma_round_trip((local, chart_id), rest);
            },
            ServerCommandModel::StartServing { chart_id, chart_name } => {
                assert(b.skip(1) =~= <(String, String) as BinaryData>::bytes((chart_id, chart_name)) + rest);
                <(String, String) as BinaryData>::lemma_round_trip((chart_id, chart_name), rest);
            },
            ServerCommandModel::StartDownload { host_id, host_name, addr, port, chart_id, chart_name } => {
                assert(b.skip(1) =~= <(i32, (String, (String, (u16, (String, String))))) as BinaryData>::bytes((host_id, (host_name, (addr, (port, (chart_id, chart_name)))))) + rest);
                <(i32, (String, (String, (u16, (String, String))))) as BinaryData>::lemma_round_trip((host_id, (host_name, (addr, (port, (chart_id, chart_name))))), rest);
            },
            ServerCommandModel::SelectLocalChart(x) => {
                assert(b.skip(1) =~= <Result<(), String> as BinaryData>::bytes(x) + rest);
                <Result<(), String> as BinaryData>::lemma_round_trip(x, rest);
            },
            ServerCommandModel::SelectOnlineChart(x) => {
                assert(b.skip(1) =~= <Result<(), String> as BinaryData>::bytes(x) + rest);
                <Result<(), String> as BinaryData>::lemma_round_trip(x, rest);
            },
            ServerCommandModel::SendChart(x) => {
                assert(b.skip(1) =~= <Result<(), String> as BinaryData>::bytes(x) + rest);
                <Result<(), String> as BinaryData>::lemma_round_trip(x, rest);
            },
            ServerCommandModel::DownloadReady(x) => {
                assert(b.skip(1) =~= <Result<(), String> as BinaryData>::bytes(x) + rest);
                <Result<(), String> as BinaryData>::lemma_round_trip(x, rest);
            },
            ServerCommandModel::CancelLocalChart(x) => {
                assert(b.skip(1) =~= <Result<(), String> as BinaryData>::bytes(x) + rest);
                <Result<(), String> as BinaryData>::lemma_round_trip(x, rest);
            },
            ServerCommandModel::CancelDownloadReady(x) => {
                assert(b.skip(1) =~= <Result<(), String> as BinaryData>::bytes(x) + rest);
                <Result<(), String> as BinaryData>::lemma_round_trip(x, rest);
            },
            ServerCommandModel::UploadChart(x) => {
                assert(b.skip(1) =~= <Result<(), String> as BinaryData>::bytes(x) + rest);
                <Result<(), String> as BinaryData>::lemma_round_trip(x, rest);
            },
            ServerCommandModel::DownloadChart(x) => {
                assert(b.skip(1) =~= <Result<Vec<u8>, String> as BinaryData>::bytes(x) + rest);
                <Result<Vec<u8>, String> as BinaryData>::lemma_round_trip(x, rest);
            },
            _ => {},
        }
    }

    proof fn lemma_parse_len(b: Seq<u8>) {
        if b.len() > 0 {
            <Result<(UserInfo, Option<ClientRoomState>), String> as BinaryData>::lemma_parse_len(b.skip(1));
            <Result<(), String> as BinaryData>::lemma_parse_len(b.skip(1));
            <(i32, Arc<Vec<TouchFrame>>) as BinaryData>::lemma_parse_len(b.skip(1));
            <(i32, Arc<Vec<JudgeEvent>>) as BinaryData>::lemma_parse_len(b.skip(1));
            Message::lemma_parse_len(b.skip(1));
            RoomState::lemma_parse_len(b.skip(1));
            bool::lemma_parse_len(b.skip(1));
            <Result<JoinRoomResponse, String> as BinaryData>::lemma_parse_len(b.skip(1));
            UserInfo::lemma_parse_len(b.skip(1));
            <(bool, String) as BinaryData>::lemma_parse_len(b.skip(1));
            <(String, String) as BinaryData>::lemma_parse_len(b.skip(1));
            <(i32, (String, (String, (u16, (String, String))))) as BinaryData>::lemma_parse_len(b.skip(1));
            <Result<Vec<u8>, String> as BinaryData>::lemma_parse_len(b.skip(1));
        }
    }
}

/// Every command of a client begins with its number, in the order in which the commands came
/// about; a number that no command has is refused.
pub proof fn law_client_numbers(m: ClientCommandModel, b: Seq<u8>)
    ensures
        ClientCommand::bytes(m).len() > 0,
        ClientCommand::bytes(m)[0] == (match m {
            ClientCommandModel::Ping => 0u8,
            ClientCommandModel::Authenticate { .. } => 1u8,
            ClientCommandModel::Chat { .. } => 2u8,
            ClientCommandModel::Touches { .. } => 3u8,
            ClientCommandModel::Judges { .. } => 4u8,
            ClientCommandModel::CreateRoom { .. } => 5u8,
            ClientCommandModel::JoinRoom { .. } => 6u8,
            ClientCommandModel::LeaveRoom => 7u8,
            ClientCommandModel::LockRoom { .. } => 8u8,
            ClientCommandModel::CycleRoom { .. } => 9u8,
            ClientCommandModel::SelectChart { .. } => 10u8,
            ClientCommandModel::RequestStart => 11u8,
            ClientCommandModel::Ready => 12u8,
            ClientCommandModel::CancelReady => 13u8,
            ClientCommandModel::Played { .. } => 14u8,
            ClientCommandModel::Abort => 15u8,
            ClientCommandModel::SelectLocalChart { .. } => 16u8,
            ClientCommandModel::SelectOnlineChart { .. } => 17u8,
            ClientCommandModel::SendChart { .. } => 18u8,
            ClientCommandModel::DownloadReady => 19u8,
            ClientCommandModel::UploadChart { .. } => 20u8,
            ClientCommandModel::DownloadChart { .. } => 21u8,
            ClientCommandModel::CancelLocalChart => 22u8,
            ClientCommandModel::CancelDownloadReady => 23u8,
            ClientCommandModel::PlayedWithScore { .. } => 24u8,
        }),
        b.len() == 0 ==> ClientCommand::parse(b) == Err::<(ClientCommandModel, int), BinError>(
            BinError::UnexpectedEof,
        ),
        b.len() > 0 && b[0] > 24 ==> ClientCommand::parse(b) == Err::<(ClientCommandModel, int), BinError>(
            BinError::InvalidVariant,
        ),
{
}

/// Every message begins with its number, and a number that no message has is refused.
pub proof fn law_message_numbers(m: MessageModel, b: Seq<u8>)
    ensures
        Message::bytes(m).len() > 0,
        Message::bytes(m)[0] == (match m {
            MessageModel::Chat { .. } => 0u8,
            MessageModel::CreateRoom { .. } => 1u8,
            MessageModel::JoinRoom { .. } => 2u8,
            MessageModel::LeaveRoom { .. } => 3u8,
            MessageModel::NewHost { .. } => 4u8,
            MessageModel::SelectChart { .. } => 5u8,
            MessageModel::GameStart { .. } => 6u8,
            MessageModel::Ready { .. } => 7u8,
            MessageModel::CancelReady { .. } => 8u8,
            MessageModel::CancelGame { .. } => 9u8,
            MessageModel::StartPlaying => 10u8,
            MessageModel::Played { .. } => 11u8,
            MessageModel::GameEnd => 12u8,
            MessageModel::Abort { .. } => 13u8,
            MessageModel::LockRoom { .. } => 14u8,
            MessageModel::CycleRoom { .. } => 15u8,
            MessageModel::SelectLocalChart { .. } => 16u8,
            MessageModel::SendChart { .. } => 17u8,
            MessageModel::DownloadReady { .. } => 18u8,
        }),
        b.len() == 0 ==> Message::parse(b) == Err::<(MessageModel, int), BinError>(
            BinError::UnexpectedEof,
        ),
        b.len() > 0 && b[0] > 18 ==> Message::parse(b) == Err::<(MessageModel, int), BinError>(
            BinError::InvalidVariant,
        ),
{
}

/// Every command of the server begins with its number, and a number that none has is refused.
pub proof fn law_server_numbers(m: ServerCommandModel, b: Seq<u8>)
    ensures
        ServerCommand::bytes(m).len() > 0,
        ServerCommand::bytes(m)[0] == (match m {
            ServerCommandModel::Pong => 0u8,
            ServerCommandModel::Authenticate(_) => 1u8,
            ServerCommandModel::Chat(_) => 2u8,
            ServerCommandModel::Touches { .. } => 3u8,
            ServerCommandModel::Judges { .. } => 4u8,
            ServerCommandModel::Message(_) => 5u8,
            ServerCommandModel::ChangeState(_) => 6u8,
            ServerCommandModel::ChangeHost(_) => 7u8,
            ServerCommandModel::CreateRoom(_) => 8u8,
            ServerCommandModel::JoinRoom(_) => 9u8,
            ServerCommandModel::OnJoinRoom(_) => 10u8,
            ServerCommandModel::LeaveRoom(_) => 11u8,
            ServerCommandModel::LockRoom(_) => 12u8,
            ServerCommandModel::CycleRoom(_) => 13u8,
            ServerCommandModel::SelectChart(_) => 14u8,
            ServerCommandModel::RequestStart(_) => 15u8,
            ServerCommandModel::Ready(_) => 16u8,
            ServerCommandModel::CancelReady(_) => 17u8,
            ServerCommandModel::Played(_) => 18u8,
            ServerCommandModel::Abort(_) => 19u8,
            ServerCommandModel::ChangeLocalChart { .. } => 20u8,
            ServerCommandModel::StartServing { .. } => 21u8,
            ServerCommandModel::StartDownload { .. } => 22u8,
            ServerCommandModel::HostReady => 23u8,
            ServerCommandModel::LocalChartCanceled => 24u8,
            ServerCommandModel::SelectLocalChart(_) => 25u8,
            ServerCommandModel::SelectOnlineChart(_) => 26u8,
            ServerCommandModel::SendChart(_) => 27u8,
            ServerCommandModel::DownloadReady(_) => 28u8,
            ServerCommandModel::CancelLocalChart(_) => 29u8,
            ServerCommandModel::CancelDownloadReady(_) => 30u8,
            ServerCommandModel::UploadChart(_) => 31u8,
            ServerCommandModel::DownloadChart(_) => 32u8,
        }),
        b.len() == 0 ==> ServerCommand::parse(b) == Err::<(ServerCommandModel, int), BinError>(
            BinError::UnexpectedEof,
        ),
        b.len() > 0 && b[0] > 32 ==> ServerCommand::parse(b) == Err::<(ServerCommandModel, int), BinError>(
            BinError::InvalidVariant,
        ),
{
}

/// What a room is doing is written as a number, with the chart after the one for choosing; and so
/// is how well a note was hit.
pub proof fn law_state_numbers(x: Option<i32>, j: Judgement, b: Seq<u8>)
    ensures
        RoomState::bytes(RoomState::SelectChart(x)) == seq![0u8] + <Option<i32> as BinaryData>::bytes(
            x,
        ),
        RoomState::bytes(RoomState::WaitingForReady) == seq![1u8],
        RoomState::bytes(RoomState::Playing) == seq![2u8],
        RoomState::bytes(RoomState::LocalChart) == seq![3u8],
        b.len() == 0 ==> RoomState::parse(b) == Err::<(RoomState, int), BinError>(
            BinError::UnexpectedEof,
        ),
        b.len() > 0 && b[0] > 3 ==> RoomState::parse(b) == Err::<(RoomState, int), BinError>(
            BinError::InvalidVariant,
        ),
        Judgement::bytes(Judgement::Perfect) == seq![0u8],
        Judgement::bytes(Judgement::Good) == seq![1u8],
        Judgement::bytes(Judgement::Bad) == seq![2u8],
        Judgement::bytes(Judgement::Miss) == seq![3u8],
        Judgement::bytes(Judgement::HoldPerfect) == seq![4u8],
        Judgement::bytes(Judgement::HoldGood) == seq![5u8],
        b.len() == 0 ==> Judgement::parse(b) == Err::<(Judgement, int), BinError>(
            BinError::UnexpectedEof,
        ),
        b.len() > 0 && b[0] > 5 ==> Judgement::parse(b) == Err::<(Judgement, int), BinError>(
            BinError::InvalidVariant,
        ),
{
}

/// How what the players do is written: a place on the screen as where it is across and along; a
/// note as its moment, its line, its number and how it was hit; touches as their moment and the
/// fingers, each with its number.
pub proof fn law_play_bytes(p: CompactPos, e: JudgeEvent, f: TouchFrameModel)
    ensures
        CompactPos::bytes(p) == u16::bytes(p.x) + u16::bytes(p.y),
        JudgeEvent::bytes(e) == u32::bytes(e.time) + (i32::bytes(e.line_id) + (i32::bytes(e.note_id)
            + Judgement::bytes(e.judgement))),
        TouchFrame::bytes(f) == u32::bytes(f.time) + <Vec<(i8, CompactPos)> as BinaryData>::bytes(
            f.points,
        ),
{
    reveal(bin::pair_bytes);
}

/// How people and rooms are written: a user as their number, their name and whether they watch; a
/// room as its id, what it is doing, whether it is live, locked and takes turns, whether who is
/// told is its host and is ready, and who is in it.
pub proof fn law_room_bytes(u: UserInfoModel, r: ClientRoomStateModel, j: JoinRoomResponseModel)
    ensures
        UserInfo::bytes(u) == i32::bytes(u.id) + (String::bytes(u.name) + bool::bytes(u.monitor)),
        ClientRoomState::bytes(r) == RoomId::bytes(r.id) + (RoomState::bytes(r.state) + (
        bool::bytes(r.live) + (bool::bytes(r.locked) + (bool::bytes(r.cycle) + (bool::bytes(
            r.is_host,
        ) + (bool::bytes(r.is_ready) + <IdTable<UserInfo> as BinaryData>::bytes(r.users))))))),
        JoinRoomResponse::bytes(j) == RoomState::bytes(j.state) + (<Vec<
            UserInfo,
        > as BinaryData>::bytes(j.users) + bool::bytes(j.live)),
        RoomId::bytes(r.id) == String::bytes(r.id),
{
    reveal(bin::pair_bytes);
}

/// What follows the number of a command of a client: what it is about, in order.
pub proof fn law_client_fields(
    id: Seq<char>,
    name: Seq<char>,
    n: i32,
    on: bool,
    port: u16,
    data: Seq<u8>,
)
    ensures
        ClientCommand::bytes(ClientCommandModel::Authenticate { token: id }) == seq![1u8]
            + String::bytes(id),
        ClientCommand::bytes(ClientCommandModel::Chat { message: id }) == seq![2u8] + String::bytes(
            id,
        ),
        ClientCommand::bytes(ClientCommandModel::CreateRoom { id }) == seq![5u8] + String::bytes(id),
        ClientCommand::bytes(ClientCommandModel::JoinRoom { id, monitor: on }) == seq![6u8] + (
        String::bytes(id) + bool::bytes(on)),
        ClientCommand::bytes(ClientCommandModel::LockRoom { lock: on }) == seq![8u8] + bool::bytes(
            on,
        ),
        ClientCommand::bytes(ClientCommandModel::CycleRoom { cycle: on }) == seq![9u8]
            + bool::bytes(on),
        ClientCommand::bytes(ClientCommandModel::SelectChart { id: n }) == seq![10u8] + i32::bytes(
            n,
        ),
        ClientCommand::bytes(ClientCommandModel::Played { id: n }) == seq![14u8] + i32::bytes(n),
        ClientCommand::bytes(ClientCommandModel::SelectLocalChart { id, name }) == seq![16u8] + (
        String::bytes(id) + String::bytes(name)),
        ClientCommand::bytes(ClientCommandModel::SelectOnlineChart { id: n }) == seq![17u8]
            + i32::bytes(n),
        ClientCommand::bytes(ClientCommandModel::SendChart { addr: id, port }) == seq![18u8] + (
        String::bytes(id) + u16::bytes(port)),
        ClientCommand::bytes(ClientCommandModel::UploadChart { id, data }) == seq![20u8] + (
        String::bytes(id) + <Vec<u8> as BinaryData>::bytes(data)),
        ClientCommand::bytes(ClientCommandModel::DownloadChart { id }) == seq![21u8]
            + String::bytes(id),
{
    reveal(bin::pair_bytes);
}

/// A text is the id of a room if there is something in it, all of it is letters, digits, hyphens
/// and underscores, and it takes twenty bytes or fewer.
pub proof fn law_room_ids(s: Seq<char>)
    ensures
        RoomId::encodable(s) <==> {
            &&& s.len() > 0
            &&& encode_utf8(s).len() <= 20
            &&& forall|i: int|
                0 <= i < s.len() ==> {
                    ||| '0' <= #[trigger] s[i] <= '9'
                    ||| 'a' <= s[i] <= 'z'
                    ||| 'A' <= s[i] <= 'Z'
                    ||| s[i] == '-'
                    ||| s[i] == '_'
                }
        },
{
    if RoomId::encodable(s) {
        assert forall|i: int| 0 <= i < s.len() implies {
            ||| '0' <= #[trigger] s[i] <= '9'
            ||| 'a' <= s[i] <= 'z'
            ||| 'A' <= s[i] <= 'Z'
            ||| s[i] == '-'
            ||| s[i] == '_'
        } by {
            assert(room_char(s[i]));
        }
    }
}

/// What follows the number of a message: what it is about, in order.
pub proof fn law_message_fields(
    user: i32,
    name: Seq<char>,
    text: Seq<char>,
    n: i32,
    accuracy: u32,
    on: bool,
)
    ensures
        Message::bytes(MessageModel::Chat { user, content: text }) == seq![0u8] + (i32::bytes(user)
            + String::bytes(text)),
        Message::bytes(MessageModel::CreateRoom { user, name }) == seq![1u8] + (i32::bytes(user)
            + String::bytes(name)),
        Message::bytes(MessageModel::JoinRoom { user, name }) == seq![2u8] + (i32::bytes(user)
            + String::bytes(name)),
        Message::bytes(MessageModel::LeaveRoom { user, name }) == seq![3u8] + (i32::bytes(user)
            + String::bytes(name)),
        Message::bytes(MessageModel::NewHost { user }) == seq![4u8] + i32::bytes(user),
        Message::bytes(MessageModel::SelectChart { user, name, id: n }) == seq![5u8] + (i32::bytes(
            user,
        ) + (String::bytes(name) + i32::bytes(n))),
        Message::bytes(MessageModel::Played { user, score: n, accuracy, full_combo: on })
            == seq![11u8] + (i32::bytes(user) + (i32::bytes(n) + (u32::bytes(accuracy)
            + bool::bytes(on)))),
        Message::bytes(MessageModel::LockRoom { lock: on }) == seq![14u8] + bool::bytes(on),
        Message::bytes(MessageModel::CycleRoom { cycle: on }) == seq![15u8] + bool::bytes(on),
        Message::bytes(MessageModel::SelectLocalChart { user, name, id: text }) == seq![16u8] + (
        i32::bytes(user) + (String::bytes(name) + String::bytes(text))),
{
    reveal(bin::pair_bytes);
}

/// What follows the number of a command of the server: what it is about, in order.
pub proof fn law_server_fields(
    player: i32,
    name: Seq<char>,
    addr: Seq<char>,
    port: u16,
    id: Seq<char>,
    title: Seq<char>,
    on: bool,
    frames: Seq<TouchFrameModel>,
    judges: Seq<JudgeEvent>,
    u: UserInfoModel,
)
    ensures
        ServerCommand::bytes(ServerCommandModel::Touches { player, frames }) == seq![3u8] + (
        i32::bytes(player) + <Vec<TouchFrame> as BinaryData>::bytes(frames)),
        ServerCommand::bytes(ServerCommandModel::Judges { player, judges }) == seq![4u8] + (
        i32::bytes(player) + <Vec<JudgeEvent> as BinaryData>::bytes(judges)),
        ServerCommand::bytes(ServerCommandModel::ChangeHost(on)) == seq![7u8] + bool::bytes(on),
        ServerCommand::bytes(ServerCommandModel::OnJoinRoom(u)) == seq![10u8] + UserInfo::bytes(u),
        ServerCommand::bytes(ServerCommandModel::ChangeLocalChart { local: on, chart_id: id })
            == seq![20u8] + (bool::bytes(on) + String::bytes(id)),
        ServerCommand::bytes(
            ServerCommandModel::StartServing { chart_id: id, chart_name: title },
        ) == seq![21u8] + (String::bytes(id) + String::bytes(title)),
        ServerCommand::bytes(
            ServerCommandModel::StartDownload {
                host_id: player,
                host_name: name,
                addr,
                port,
                chart_id: id,
                chart_name: title,
            },
        ) == seq![22u8] + (i32::bytes(player) + (String::bytes(name) + (String::bytes(addr) + (
        u16::bytes(port) + (String::bytes(id) + String::bytes(title)))))),
{
    reveal(bin::pair_bytes);
}

/// A text with a bound is refused by its length alone, before it is read; else it is read as any
/// text is.
pub proof fn law_bounded_texts(len: u64, rest: Seq<u8>, bound: nat)
    ensures
        ({
            let b = bin::uleb_bytes(len as nat) + rest;
            &&& len > bound ==> parse_varchar(b, bound) == Err::<(Seq<char>, int), BinError>(
                BinError::StringTooLong,
            )
            &&& len <= bound ==> parse_varchar(b, bound) == String::parse(b)
        }),
{
    reveal(parse_varchar);
    bin::lemma_uleb64_round_trip(len, rest);
}

/// The name of a room is read as a text of no more than twenty bytes, and refused if a room cannot
/// have it.
pub proof fn law_room_ids_read(s: Seq<char>, rest: Seq<u8>)
    requires
        encode_utf8(s).len() <= 20,
    ensures
        RoomId::encodable(s) ==> RoomId::parse(String::bytes(s) + rest) == Ok::<
            (Seq<char>, int),
            BinError,
        >((s, String::bytes(s).len() as int)),
        !RoomId::encodable(s) ==> RoomId::parse(String::bytes(s) + rest) == Err::<
            (Seq<char>, int),
            BinError,
        >(BinError::InvalidRoomId),
{
    Varchar::<20>::lemma_round_trip(s, rest);
}

} // verus!
