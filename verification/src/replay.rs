//! What the players of a room did, and the files that it is kept in.
//!
//! A record file is the magic `PHIRAREC`, the version, the kind of compression, and then a
//! zstd frame of the payload: who played what and when, the touch frames, and the judgements.
use crate::bin;
use crate::buffer;
use crate::command::{JudgeEvent, Judgement, TouchFrame, TouchFrameModel};
use crate::bin::BinaryData;
use crate::table;
use crate::table::Table;
use crate::text;
use bytes::BytesMut;
use vstd::prelude::*;
use vstd::string::*;
use vstd::utf8::*;

verus! {

broadcast use table::group_views;

/// The user that stands for the recorder; no player has a negative id.
pub const RECORDER_BOT_USER_ID: i32 = -999;

/// The name of the recorder.
pub open spec fn recorder_name() -> Seq<char> {
    "回放录制器"@
}

/// The name of the recorder.
pub fn recorder_bot_user_name() -> (res: String)
    ensures
        res@ == recorder_name(),
{
    "回放录制器".to_owned()
}

/// Whether a user is the recorder.
pub fn is_recorder_bot(user_id: i32) -> (res: bool)
    ensures
        res == (user_id == RECORDER_BOT_USER_ID),
{
    user_id == RECORDER_BOT_USER_ID
}

/// The version of the record format.
pub const PHIRAREC_VERSION: i32 = 1;

/// The number of zstd among the kinds of compression.
pub const COMPRESSION_ZSTD: u8 = 1;

/// The level at which payloads are compressed.
pub const COMPRESSION_LEVEL: i32 = 3;

/// A judgement as record files number it.
#[derive(Debug, Clone, Copy, PartialEq, Eq, Structural)]
pub enum JudgementType {
    Perfect,
    Good,
    Bad,
    Miss,
    HoldPerfect,
    HoldGood,
}

impl JudgementType {
    /// The judgement of an event, for a record.
    pub open spec fn of(judgement: Judgement) -> JudgementType {
        match judgement {
            Judgement::Perfect => JudgementType::Perfect,
            Judgement::Good => JudgementType::Good,
            Judgement::Bad => JudgementType::Bad,
            Judgement::Miss => JudgementType::Miss,
            Judgement::HoldPerfect => JudgementType::HoldPerfect,
            Judgement::HoldGood => JudgementType::HoldGood,
        }
    }

    /// The number of a judgement in a record.
    pub open spec fn number(self) -> u8 {
        match self {
            JudgementType::Perfect => 0,
            JudgementType::Good => 1,
            JudgementType::Bad => 2,
            JudgementType::Miss => 3,
            JudgementType::HoldPerfect => 4,
            JudgementType::HoldGood => 5,
        }
    }

    /// The judgement of an event, for a record.
    pub fn from_phira(judgement: &Judgement) -> (res: JudgementType)
        ensures
            res == JudgementType::of(*judgement),
    {
        match judgement {
            Judgement::Perfect => JudgementType::Perfect,
            Judgement::Good => JudgementType::Good,
            Judgement::Bad => JudgementType::Bad,
            Judgement::Miss => JudgementType::Miss,
            Judgement::HoldPerfect => JudgementType::HoldPerfect,
            Judgement::HoldGood => JudgementType::HoldGood,
        }
    }

    /// The number of this judgement in a record.
    pub fn to_byte(&self) -> (res: u8)
        ensures
            res == self.number(),
    {
        match self {
            JudgementType::Perfect => 0,
            JudgementType::Good => 1,
            JudgementType::Bad => 2,
            JudgementType::Miss => 3,
            JudgementType::HoldPerfect => 4,
            JudgementType::HoldGood => 5,
        }
    }
}

/// A finger on the screen; the coordinates are the bits of 16-bit floats.
#[derive(Debug, Clone, Copy, PartialEq, Eq, Structural)]
pub struct ReplayTouchPoint {
    pub id: u8,
    pub x: u16,
    pub y: u16,
}

/// The fingers on the screen at one moment, which is the bits of a 32-bit float.
#[derive(Debug, PartialEq, Eq)]
pub struct ReplayTouchFrame {
    pub time: u32,
    pub points: Vec<ReplayTouchPoint>,
}

/// What a [`ReplayTouchFrame`] means.
#[verifier::ext_equal]
pub struct ReplayTouchFrameModel {
    pub time: u32,
    pub points: Seq<ReplayTouchPoint>,
}

impl View for ReplayTouchFrame {
    type V = ReplayTouchFrameModel;

    open spec fn view(&self) -> ReplayTouchFrameModel {
        ReplayTouchFrameModel { time: self.time, points: self.points@ }
    }
}

/// The byte with the bits of the two's complement of `v`.
pub open spec fn unsigned8(v: i8) -> u8 {
    (if v < 0 {
        v + 0x100
    } else {
        v as int
    }) as u8
}

/// A touch frame, for a record.
pub open spec fn replay_frame(f: TouchFrameModel) -> ReplayTouchFrameModel {
    ReplayTouchFrameModel {
        time: f.time,
        points: Seq::new(
            f.points.len(),
            |i: int|
                ReplayTouchPoint {
                    id: unsigned8(f.points[i].0),
                    x: f.points[i].1.x,
                    y: f.points[i].1.y,
                },
        ),
    }
}

impl ReplayTouchFrame {
    /// A touch frame, for a record.
    pub fn from_frame(frame: &TouchFrame) -> (res: ReplayTouchFrame)
        ensures
            res@ == replay_frame(frame.model()),
    {
        let mut points: Vec<ReplayTouchPoint> = Vec::new();
        let ghost whole = replay_frame(frame.model()).points;
        let mut i: usize = 0;
        while i < frame.points.len()
            invariant
                i <= frame.points.len(),
                whole == replay_frame(frame.model()).points,
                points@ =~= whole.take(i as int),
            decreases frame.points.len() - i,
        {
            let v: i16 = frame.points[i].0 as i16;
            let id: u8 = if v < 0 {
                (v + 0x100) as u8
            } else {
                v as u8
            };
            points.push(
                ReplayTouchPoint { id, x: frame.points[i].1.x, y: frame.points[i].1.y },
            );
            i += 1;
        }
        assert(points@ =~= whole);
        ReplayTouchFrame { time: frame.time, points }
    }

    /// A copy.
    pub fn duplicate(&self) -> (res: ReplayTouchFrame)
        ensures
            res@ == self@,
    {
        let mut points: Vec<ReplayTouchPoint> = Vec::new();
        let mut i: usize = 0;
        while i < self.points.len()
            invariant
                i <= self.points.len(),
                points@ =~= self.points@.take(i as int),
            decreases self.points.len() - i,
        {
            points.push(self.points[i]);
            i += 1;
        }
        assert(points@ =~= self.points@);
        ReplayTouchFrame { time: self.time, points }
    }
}

/// The judgement of one note, at a moment that is the bits of a 32-bit float.
#[derive(Debug, Clone, Copy, PartialEq, Eq, Structural)]
pub struct ReplayJudgeEvent {
    pub time: u32,
    pub line_id: i32,
    pub note_id: i32,
    pub judgement: JudgementType,
}

/// A judgement, for a record.
pub open spec fn replay_event(e: JudgeEvent) -> ReplayJudgeEvent {
    ReplayJudgeEvent {
        time: e.time,
        line_id: e.line_id,
        note_id: e.note_id,
        judgement: JudgementType::of(e.judgement),
    }
}

impl ReplayJudgeEvent {
    /// A judgement, for a record.
    pub fn from_event(event: &JudgeEvent) -> (res: ReplayJudgeEvent)
        ensures
            res == replay_event(*event),
    {
        ReplayJudgeEvent {
            time: event.time,
            line_id: event.line_id,
            note_id: event.note_id,
            judgement: JudgementType::from_phira(&event.judgement),
        }
    }
}

/// The views of the elements of a list.
pub open spec fn list_views<T: View>(s: Seq<T>) -> Seq<T::V> {
    Seq::new(s.len(), |i: int| s[i]@)
}

/// What one player did.
#[derive(Debug, PartialEq, Eq)]
pub struct PlayerReplayCache {
    pub user_id: i32,
    pub user_name: String,
    pub touch_frames: Vec<ReplayTouchFrame>,
    pub judge_events: Vec<ReplayJudgeEvent>,
}

/// What a [`PlayerReplayCache`] means.
#[verifier::ext_equal]
pub struct CacheModel {
    pub user_id: i32,
    pub user_name: Seq<char>,
    pub touch_frames: Seq<ReplayTouchFrameModel>,
    pub judge_events: Seq<ReplayJudgeEvent>,
}

impl View for PlayerReplayCache {
    type V = CacheModel;

    open spec fn view(&self) -> CacheModel {
        CacheModel {
            user_id: self.user_id,
            user_name: self.user_name@,
            touch_frames: list_views(self.touch_frames@),
            judge_events: self.judge_events@,
        }
    }
}

/// A player who has done nothing yet.
pub open spec fn new_cache(user_id: i32, user_name: Seq<char>) -> CacheModel {
    CacheModel {
        user_id,
        user_name,
        touch_frames: Seq::empty(),
        judge_events: Seq::empty(),
    }
}

/// Touch frames, for a record.
pub open spec fn replay_frames(frames: Seq<TouchFrameModel>) -> Seq<ReplayTouchFrameModel> {
    Seq::new(frames.len(), |i: int| replay_frame(frames[i]))
}

/// Judgements, for a record.
pub open spec fn replay_events(events: Seq<JudgeEvent>) -> Seq<ReplayJudgeEvent> {
    Seq::new(events.len(), |i: int| replay_event(events[i]))
}

impl PlayerReplayCache {
    /// A player who has done nothing yet.
    pub fn new(user_id: i32, user_name: String) -> (res: PlayerReplayCache)
        ensures
            res@ == new_cache(user_id, user_name@),
    {
        let res = PlayerReplayCache {
            user_id,
            user_name,
            touch_frames: Vec::new(),
            judge_events: Vec::new(),
        };
        assert(res@ =~= new_cache(user_id, user_name@));
        res
    }

    /// Adds a touch frame.
    pub fn add_touch_frame(&mut self, frame: ReplayTouchFrame)
        ensures
            final(self)@ == (CacheModel {
                touch_frames: old(self)@.touch_frames.push(frame@),
                ..old(self)@
            }),
    {
        self.touch_frames.push(frame);
        assert(self@.touch_frames =~= old(self)@.touch_frames.push(frame@));
    }

    /// Adds a judgement.
    pub fn add_judge_event(&mut self, event: ReplayJudgeEvent)
        ensures
            final(self)@ == (CacheModel {
                judge_events: old(self)@.judge_events.push(event),
                ..old(self)@
            }),
    {
        self.judge_events.push(event);
    }

    /// Adds the touch frames of a client.
    fn add_frames(&mut self, frames: &Vec<TouchFrame>)
        ensures
            final(self)@ == (CacheModel {
                touch_frames: old(self)@.touch_frames + replay_frames(frames.model()),
                ..old(self)@
            }),
    {
        let ghost before = self@;
        let ghost all = replay_frames(frames.model());
        let mut i: usize = 0;
        assert(before.touch_frames + all.take(0) =~= before.touch_frames);
        while i < frames.len()
            invariant
                i <= frames.len(),
                all == replay_frames(frames.model()),
                self@ == (CacheModel {
                    touch_frames: before.touch_frames + all.take(i as int),
                    ..before
                }),
            decreases frames.len() - i,
        {
            let frame: ReplayTouchFrame = ReplayTouchFrame::from_frame(&frames[i]);
            proof {
                assert(frame@ == all[i as int]);
                assert((before.touch_frames + all.take(i as int)).push(frame@)
                    =~= before.touch_frames + all.take(i + 1));
            }
            self.add_touch_frame(frame);
            i += 1;
        }
        assert(all.take(i as int) =~= all);
    }

    /// Adds the judgements of a client.
    fn add_events(&mut self, events: &Vec<JudgeEvent>)
        ensures
            final(self)@ == (CacheModel {
                judge_events: old(self)@.judge_events + replay_events(events@),
                ..old(self)@
            }),
    {
        let ghost before = self@;
        let ghost all = replay_events(events@);
        let mut i: usize = 0;
        assert(before.judge_events + all.take(0) =~= before.judge_events);
        while i < events.len()
            invariant
                i <= events.len(),
                all == replay_events(events@),
                self@ == (CacheModel {
                    judge_events: before.judge_events + all.take(i as int),
                    ..before
                }),
            decreases events.len() - i,
        {
            let event: ReplayJudgeEvent = ReplayJudgeEvent::from_event(&events[i]);
            proof {
                assert(event == all[i as int]);
                assert((before.judge_events + all.take(i as int)).push(event)
                    =~= before.judge_events + all.take(i + 1));
            }
            self.add_judge_event(event);
            i += 1;
        }
        assert(all.take(i as int) =~= all);
    }
}

/// What the players of one room did.
#[derive(Debug, PartialEq, Eq)]
pub struct RoomReplayManager {
    pub room_id: String,
    pub chart_id: i32,
    pub chart_name: String,
    pub player_caches: Table<i32, PlayerReplayCache>,
    pub is_recording: bool,
}

/// What a [`RoomReplayManager`] means.
#[verifier::ext_equal]
pub struct RecorderModel {
    pub room_id: Seq<char>,
    pub chart_id: i32,
    pub chart_name: Seq<char>,
    pub caches: Seq<(i32, CacheModel)>,
    pub recording: bool,
}

impl View for RoomReplayManager {
    type V = RecorderModel;

    open spec fn view(&self) -> RecorderModel {
        RecorderModel {
            room_id: self.room_id@,
            chart_id: self.chart_id,
            chart_name: self.chart_name@,
            caches: table::views(self.player_caches@),
            recording: self.is_recording,
        }
    }
}

/// A recorder that has recorded nothing yet.
pub open spec fn new_recorder(
    room_id: Seq<char>,
    chart_id: i32,
    chart_name: Seq<char>,
) -> RecorderModel {
    RecorderModel { room_id, chart_id, chart_name, caches: Seq::empty(), recording: false }
}

/// A player comes into the room: what they did before is dropped.
pub open spec fn with_player(m: RecorderModel, user_id: i32, name: Seq<char>) -> RecorderModel {
    RecorderModel { caches: table::put(m.caches, user_id, new_cache(user_id, name)), ..m }
}

/// A player touches the screen: recording begins with the first touch, and only players
/// who came into the room are recorded, never the recorder itself.
pub open spec fn with_frames(
    m: RecorderModel,
    user_id: i32,
    frames: Seq<TouchFrameModel>,
) -> RecorderModel {
    let recording = m.recording || frames.len() > 0;
    match table::lookup(m.caches, user_id) {
        Some(c) => if recording && user_id != RECORDER_BOT_USER_ID {
            RecorderModel {
                recording,
                caches: table::put(
                    m.caches,
                    user_id,
                    CacheModel { touch_frames: c.touch_frames + replay_frames(frames), ..c },
                ),
                ..m
            }
        } else {
            RecorderModel { recording, ..m }
        },
        None => RecorderModel { recording, ..m },
    }
}

/// A player hits notes: recording begins with the first judgement, and only players who
/// came into the room are recorded, never the recorder itself.
pub open spec fn with_events(
    m: RecorderModel,
    user_id: i32,
    events: Seq<JudgeEvent>,
) -> RecorderModel {
    let recording = m.recording || events.len() > 0;
    match table::lookup(m.caches, user_id) {
        Some(c) => if recording && user_id != RECORDER_BOT_USER_ID {
            RecorderModel {
                recording,
                caches: table::put(
                    m.caches,
                    user_id,
                    CacheModel { judge_events: c.judge_events + replay_events(events), ..c },
                ),
                ..m
            }
        } else {
            RecorderModel { recording, ..m }
        },
        None => RecorderModel { recording, ..m },
    }
}

impl RoomReplayManager {
    /// A recorder that has recorded nothing yet.
    pub fn new(room_id: String, chart_id: i32, chart_name: String) -> (res: RoomReplayManager)
        ensures
            res@ == new_recorder(room_id@, chart_id, chart_name@),
    {
        RoomReplayManager {
            room_id,
            chart_id,
            chart_name,
            player_caches: Table::new(),
            is_recording: false,
        }
    }

    /// Begins to record.
    pub fn start_recording(&mut self)
        ensures
            final(self)@ == (RecorderModel { recording: true, ..old(self)@ }),
    {
        self.is_recording = true;
    }

    /// Stops recording.
    pub fn stop_recording(&mut self)
        ensures
            final(self)@ == (RecorderModel { recording: false, ..old(self)@ }),
    {
        self.is_recording = false;
    }

    /// A player comes into the room.
    pub fn init_player(&mut self, user_id: i32, user_name: String)
        ensures
            final(self)@ == with_player(old(self)@, user_id, user_name@),
    {
        let _ = self.player_caches.insert(user_id, PlayerReplayCache::new(user_id, user_name));
    }

    /// A player touches the screen.
    pub fn record_touch_frames(&mut self, user_id: i32, frames: &Vec<TouchFrame>)
        ensures
            final(self)@ == with_frames(old(self)@, user_id, frames.model()),
    {
        if !self.is_recording && frames.len() > 0 {
            self.start_recording();
        }
        if !self.is_recording {
            return;
        }
        if user_id == RECORDER_BOT_USER_ID {
            return;
        }
        if let Some(cache) = self.player_caches.get_mut(&user_id) {
            cache.add_frames(frames);
        }
    }

    /// A player hits notes.
    pub fn record_judge_events(&mut self, user_id: i32, events: &Vec<JudgeEvent>)
        ensures
            final(self)@ == with_events(old(self)@, user_id, events@),
    {
        if !self.is_recording && events.len() > 0 {
            self.start_recording();
        }
        if !self.is_recording {
            return;
        }
        if user_id == RECORDER_BOT_USER_ID {
            return;
        }
        if let Some(cache) = self.player_caches.get_mut(&user_id) {
            cache.add_events(events);
        }
    }
}

/// Where the record of a game is kept.
pub open spec fn record_path(user_id: i32, chart_id: i32, timestamp: u64) -> Seq<char> {
    "record/"@ + text::dec(user_id as int) + "/"@ + text::dec(chart_id as int) + "/"@ + text::dec(
        timestamp as int,
    ) + ".phirarec"@
}

/// The players whose records are kept: all but those with a negative id.
pub open spec fn kept_players(caches: Seq<(i32, CacheModel)>) -> Seq<i32>
    decreases caches.len(),
{
    if caches.len() == 0 {
        Seq::empty()
    } else {
        let front = kept_players(caches.drop_last());
        if caches.last().0 < 0 {
            front
        } else {
            front.push(caches.last().0)
        }
    }
}

/// Whose record is kept has played.
proof fn lemma_kept(caches: Seq<(i32, CacheModel)>, i: int)
    requires
        0 <= i < kept_players(caches).len(),
    ensures
        table::holds(caches, kept_players(caches)[i]),
        kept_players(caches)[i] >= 0,
    decreases caches.len(),
{
    let front = caches.drop_last();
    let user = kept_players(caches)[i];
    table::lemma_find(caches, user);
    if i < kept_players(front).len() {
        lemma_kept(front, i);
        table::lemma_find(front, user);
        let k = table::find(front, user);
        assert(caches[k].0 == user);
    } else {
        assert(caches[caches.len() - 1].0 == user);
    }
}

/// The record of a player's game.
pub open spec fn player_record(
    m: RecorderModel,
    user: i32,
    id: i32,
    timestamp: u64,
) -> RecordModel {
    let c = table::lookup(m.caches, user)->Some_0;
    RecordModel {
        id,
        time: timestamp,
        chart: m.chart_id,
        chart_name: m.chart_name,
        user,
        user_name: c.user_name,
        touch_frames: c.touch_frames,
        judge_events: c.judge_events,
    }
}

/// `rand::random` gives any number at all.
#[verifier::external_body]
fn random_i32() -> (res: i32) {
    rand::random::<i32>()
}

/// `rand::random` gives any number at all.
#[verifier::external_body]
fn random_u64() -> (res: u64) {
    rand::random::<u64>()
}

/// The id of a record made from a random number.
pub fn record_id(random: i32) -> (res: i32)
    requires
        random != i32::MIN,
    ensures
        res == (if random < 0 {
            -random
        } else {
            random as int
        }),
{
    if random < 0 {
        0 - random
    } else {
        random
    }
}

/// A fresh id of a record; none for the one number that has no absolute value.
pub fn fresh_record_id() -> (res: Option<i32>)
    ensures
        exists|random: i32| res == #[trigger] id_from(random),
{
    let random: i32 = random_i32();
    checked_record_id(random)
}

/// The id of a record that a random number gives: its absolute value, if it has one.
pub open spec fn id_from(random: i32) -> Option<i32> {
    if random == i32::MIN {
        None
    } else if random < 0 {
        Some((-random) as i32)
    } else {
        Some(random)
    }
}

/// The id of a record made from a random number, if that has an absolute value.
pub fn checked_record_id(random: i32) -> (res: Option<i32>)
    ensures
        res == id_from(random),
{
    if random == i32::MIN {
        None
    } else {
        Some(record_id(random))
    }
}

impl RoomReplayManager {
    /// The players whose records are kept.
    pub fn players_to_save(&self) -> (res: Vec<i32>)
        ensures
            res@ == kept_players(self@.caches),
    {
        let ghost all = self@.caches;
        let mut res: Vec<i32> = Vec::new();
        let mut i: usize = 0;
        while i < self.player_caches.len()
            invariant
                i <= self.player_caches@.len(),
                all == self@.caches,
                res@ =~= kept_players(all.take(i as int)),
            decreases self.player_caches@.len() - i,
        {
            let id: i32 = *self.player_caches.key(i);
            proof {
                assert(all.take(i + 1).drop_last() =~= all.take(i as int));
            }
            if id >= 0 {
                res.push(id);
            }
            i += 1;
        }
        assert(all.take(i as int) =~= all);
        res
    }

    /// The record of a player's game.
    pub fn record_of(&self, user_id: i32, record_id: i32, timestamp: u64) -> (res: Option<
        PhiraRecord,
    >)
        ensures
            if table::holds(self@.caches, user_id) {
                res matches Some(r) && r@ == player_record(self@, user_id, record_id, timestamp)
            } else {
                res is None
            },
    {
        match self.player_caches.get(&user_id) {
            Some(cache) => {
                let mut touch_frames: Vec<ReplayTouchFrame> = Vec::new();
                let mut i: usize = 0;
                while i < cache.touch_frames.len()
                    invariant
                        i <= cache.touch_frames.len(),
                        list_views(touch_frames@) =~= cache@.touch_frames.take(i as int),
                    decreases cache.touch_frames.len() - i,
                {
                    let frame: ReplayTouchFrame = cache.touch_frames[i].duplicate();
                    let ghost before = touch_frames@;
                    assert(frame@ == cache@.touch_frames[i as int]);
                    touch_frames.push(frame);
                    assert(list_views(touch_frames@) =~= list_views(before).push(frame@));
                    i += 1;
                }
                let mut judge_events: Vec<ReplayJudgeEvent> = Vec::new();
                let mut j: usize = 0;
                while j < cache.judge_events.len()
                    invariant
                        j <= cache.judge_events.len(),
                        judge_events@ =~= cache.judge_events@.take(j as int),
                    decreases cache.judge_events.len() - j,
                {
                    judge_events.push(cache.judge_events[j]);
                    j += 1;
                }
                assert(list_views(touch_frames@) =~= cache@.touch_frames);
                assert(judge_events@ =~= cache.judge_events@);
                Some(
                    PhiraRecord {
                        id: record_id,
                        time: timestamp,
                        chart: self.chart_id,
                        chart_name: self.chart_name.clone(),
                        user: user_id,
                        user_name: cache.user_name.clone(),
                        touch_frames,
                        judge_events,
                    },
                )
            },
            None => None,
        }
    }

    /// The records that are kept of a game, each with where it is kept; `ids` are their ids.
    pub fn records_to_save(&self, ids: &Vec<i32>, timestamp: u64) -> (res: Vec<
        (String, PhiraRecord),
    >)
        requires
            ids@.len() == kept_players(self@.caches).len(),
        ensures
            res@.len() == ids@.len(),
            forall|i: int|
                0 <= i < res@.len() ==> {
                    let user = kept_players(self@.caches)[i];
                    &&& (#[trigger] res@[i]).0@ == record_path(user, self@.chart_id, timestamp)
                    &&& res@[i].1@ == player_record(self@, user, ids@[i], timestamp)
                },
    {
        let users: Vec<i32> = self.players_to_save();
        let mut res: Vec<(String, PhiraRecord)> = Vec::new();
        let mut i: usize = 0;
        while i < users.len()
            invariant
                i <= users.len(),
                users@ == kept_players(self@.caches),
                ids@.len() == users@.len(),
                res@.len() == i,
                forall|j: int|
                    0 <= j < i ==> {
                        let user = users@[j];
                        &&& (#[trigger] res@[j]).0@ == record_path(
                            user,
                            self@.chart_id,
                            timestamp,
                        )
                        &&& res@[j].1@ == player_record(self@, user, ids@[j], timestamp)
                    },
            decreases users.len() - i,
        {
            proof {
                lemma_kept(self@.caches, i as int);
            }
            if let Some(record) = self.record_of(users[i], ids[i], timestamp) {
                let path: String = RoomReplayManager::get_record_path(
                    users[i],
                    self.chart_id,
                    timestamp,
                );
                res.push((path, record));
            }
            i += 1;
        }
        res
    }

    /// Where the record of a game is kept.
    pub fn get_record_path(user_id: i32, chart_id: i32, timestamp: u64) -> (res: String)
        ensures
            res@ == record_path(user_id, chart_id, timestamp),
    {
        let mut s: String = "record/".to_owned();
        s.append(text::i32_text(user_id).as_str());
        s.append("/");
        s.append(text::i32_text(chart_id).as_str());
        s.append("/");
        s.append(text::u64_text(timestamp).as_str());
        s.append(".phirarec");
        s
    }
}

/// A record of one game of one player.
#[derive(Debug, PartialEq, Eq)]
pub struct PhiraRecord {
    pub id: i32,
    /// Milliseconds since 1970.
    pub time: u64,
    pub chart: i32,
    pub chart_name: String,
    pub user: i32,
    pub user_name: String,
    pub touch_frames: Vec<ReplayTouchFrame>,
    pub judge_events: Vec<ReplayJudgeEvent>,
}

/// What a [`PhiraRecord`] means.
#[verifier::ext_equal]
pub struct RecordModel {
    pub id: i32,
    pub time: u64,
    pub chart: i32,
    pub chart_name: Seq<char>,
    pub user: i32,
    pub user_name: Seq<char>,
    pub touch_frames: Seq<ReplayTouchFrameModel>,
    pub judge_events: Seq<ReplayJudgeEvent>,
}

impl View for PhiraRecord {
    type V = RecordModel;

    open spec fn view(&self) -> RecordModel {
        RecordModel {
            id: self.id,
            time: self.time,
            chart: self.chart,
            chart_name: self.chart_name@,
            user: self.user,
            user_name: self.user_name@,
            touch_frames: list_views(self.touch_frames@),
            judge_events: self.judge_events@,
        }
    }
}

/// The length of a list in a record: its low 32 bits, in LEB128. That is one to four bytes below
/// two to the power 28, and five from there on.
pub open spec fn varint32(len: nat) -> Seq<u8> {
    bin::uleb_bytes(len % 0x1_0000_0000)
}

/// A length below two to the power 28 takes one to four bytes; one from there on whose 32 bits
/// suffice takes five.
pub proof fn law_length_bytes(len: nat)
    requires
        len < 0x1_0000_0000,
    ensures
        len < 0x1000_0000 ==> 1 <= varint32(len).len() <= 4,
        len >= 0x1000_0000 ==> varint32(len).len() == 5,
{
    bin::lemma_pow128_limits();
    if len < 0x1000_0000 {
        bin::lemma_uleb_round_trip(len, 4, Seq::empty());
    } else {
        reveal_with_fuel(bin::uleb_bytes, 6);
        assert(len / 128 / 128 / 128 / 128 < 128);
        assert(len / 128 / 128 / 128 >= 128);
    }
}

/// A text in a record.
pub open spec fn record_text(s: Seq<char>) -> Seq<u8> {
    varint32(encode_utf8(s).len()) + encode_utf8(s)
}

/// The 16-bit float in the unit interval that is nearest to the one with bits `b`, as its
/// bits. A value that is no number stays one, with its quiet bit set, and a negative zero
/// stays as it is.
pub open spec fn unit_half(b: u16) -> u16 {
    let magnitude = b % 0x8000;
    if magnitude > 0x7c00 {
        if b / 0x200 % 2 == 1 {
            b
        } else {
            (b + 0x200) as u16
        }
    } else if b >= 0x8000 && magnitude > 0 {
        0
    } else if b < 0x8000 && magnitude > 0x3c00 {
        0x3c00
    } else {
        b
    }
}

/// The nearest 16-bit float in the unit interval.
pub fn clamp_unit_half(b: u16) -> (res: u16)
    ensures
        res == unit_half(b),
{
    let magnitude: u16 = b % 0x8000;
    if magnitude > 0x7c00 {
        if b / 0x200 % 2 == 1 {
            b
        } else {
            b + 0x200
        }
    } else if b >= 0x8000 && magnitude > 0 {
        0
    } else if b < 0x8000 && magnitude > 0x3c00 {
        0x3c00
    } else {
        b
    }
}

/// A finger in a record.
pub open spec fn point_bytes(p: ReplayTouchPoint) -> Seq<u8> {
    seq![p.id] + bin::le_bytes(unit_half(p.x) as nat, 2) + bin::le_bytes(
        unit_half(p.y) as nat,
        2,
    )
}

/// Fingers in a record, one after the other.
pub open spec fn points_bytes(s: Seq<ReplayTouchPoint>) -> Seq<u8>
    decreases s.len(),
{
    if s.len() == 0 {
        Seq::empty()
    } else {
        point_bytes(s[0]) + points_bytes(s.skip(1))
    }
}

/// A touch frame in a record.
pub open spec fn frame_bytes(f: ReplayTouchFrameModel) -> Seq<u8> {
    bin::le_bytes(f.time as nat, 4) + (varint32(f.points.len()) + points_bytes(f.points))
}

/// Touch frames in a record, one after the other.
pub open spec fn frames_bytes(s: Seq<ReplayTouchFrameModel>) -> Seq<u8>
    decreases s.len(),
{
    if s.len() == 0 {
        Seq::empty()
    } else {
        frame_bytes(s[0]) + frames_bytes(s.skip(1))
    }
}

/// A judgement in a record.
pub open spec fn event_bytes(e: ReplayJudgeEvent) -> Seq<u8> {
    bin::le_bytes(e.time as nat, 4) + bin::le_bytes(bin::unsigned32(e.line_id) as nat, 4)
        + bin::le_bytes(bin::unsigned32(e.note_id) as nat, 4) + seq![e.judgement.number()]
}

/// Judgements in a record, one after the other.
pub open spec fn events_bytes(s: Seq<ReplayJudgeEvent>) -> Seq<u8>
    decreases s.len(),
{
    if s.len() == 0 {
        Seq::empty()
    } else {
        event_bytes(s[0]) + events_bytes(s.skip(1))
    }
}

/// The payload of a record, before it is compressed.
pub open spec fn payload(r: RecordModel) -> Seq<u8> {
    bin::le_bytes(bin::unsigned32(r.id) as nat, 4) + bin::le_bytes(r.time as nat, 8)
        + bin::le_bytes(bin::unsigned32(r.chart) as nat, 4) + record_text(r.chart_name)
        + bin::le_bytes(bin::unsigned32(r.user) as nat, 4) + record_text(r.user_name) + (varint32(
        r.touch_frames.len(),
    ) + frames_bytes(r.touch_frames)) + (varint32(r.judge_events.len()) + events_bytes(
        r.judge_events,
    ))
}

/// `PHIRAREC` in ASCII.
pub open spec fn magic() -> Seq<u8> {
    seq![0x50u8, 0x48u8, 0x49u8, 0x52u8, 0x41u8, 0x52u8, 0x45u8, 0x43u8]
}

/// A record file with a compressed payload.
pub open spec fn record_file(compressed: Seq<u8>) -> Seq<u8> {
    magic() + bin::le_bytes(bin::unsigned32(PHIRAREC_VERSION) as nat, 4) + seq![COMPRESSION_ZSTD]
        + compressed
}

/// The bytes of a record file before its compressed payload.
pub const RECORD_HEAD: usize = 13;

/// `std::io::Error`, an error of the machine.
#[verifier::external_type_specification]
#[verifier::external_body]
pub struct ExIoError(std::io::Error);

/// The frame that `zstd::stream::write::Encoder` makes of `data` at a compression level,
/// with the size of the data in the header of the frame.
pub uninterp spec fn zstd_frame(data: Seq<u8>, level: i32) -> Seq<u8>;

/// Compresses `data` by `zstd::stream::write::Encoder`: `Encoder::new`, then
/// `set_pledged_src_size` with the size of the data, `write_all` and `finish`. Where none
/// of them fails, what comes out depends on the data and the level alone; it is only named.
#[verifier::external_body]
fn compress(data: &[u8], level: i32) -> (res: Result<Vec<u8>, std::io::Error>)
    ensures
        res matches Ok(v) ==> v@ == zstd_frame(data@, level),
{
    let mut encoder = zstd::stream::write::Encoder::new(Vec::new(), level)?;
    encoder.set_pledged_src_size(Some(data.len() as u64))?;
    std::io::Write::write_all(&mut encoder, data)?;
    encoder.finish()
}

/// Why a record could not be encoded.
#[derive(Debug, Clone, Copy, PartialEq, Eq, Structural)]
pub enum EncodeError {
    /// The compressor failed.
    Compress,
    /// The record file is larger than a buffer can be.
    TooLarge,
}

/// What becomes of a compressed payload, or of none where the compressor failed.
pub open spec fn finished(compressed: Option<Seq<u8>>) -> Result<Seq<u8>, EncodeError> {
    match compressed {
        Some(c) => if c.len() + RECORD_HEAD <= isize::MAX {
            Ok(record_file(c))
        } else {
            Err(EncodeError::TooLarge)
        },
        None => Err(EncodeError::Compress),
    }
}

/// The bytes of a result, or its error.
pub open spec fn result_bytes(res: Result<Vec<u8>, EncodeError>) -> Result<Seq<u8>, EncodeError> {
    match res {
        Ok(v) => Ok(v@),
        Err(e) => Err(e),
    }
}

impl PhiraRecord {
    /// The bytes of a record file: those that the compressed payload gives, or the error
    /// where the compressor fails, which is up to the machine.
    pub fn encode(&self) -> (res: Result<Vec<u8>, EncodeError>)
        requires
            payload(self@).len() <= buffer::max_buffer(),
        ensures
            result_bytes(res) == finished(Some(zstd_frame(payload(self@), COMPRESSION_LEVEL)))
                || result_bytes(res) == finished(None),
    {
        let payload: Vec<u8> = self.encode_payload();
        PhiraRecord::finish(compress(payload.as_slice(), COMPRESSION_LEVEL))
    }

    /// What becomes of what the compressor gave: a record file where it gave bytes and the
    /// file is not too large, else an error.
    pub fn finish(outcome: Result<Vec<u8>, std::io::Error>) -> (res: Result<Vec<u8>, EncodeError>)
        ensures
            match outcome {
                Ok(c) => result_bytes(res) == finished(Some(c@)),
                Err(_) => result_bytes(res) == finished(None),
            },
    {
        match outcome {
            Ok(compressed) => {
                if compressed.len() > isize::MAX as usize - RECORD_HEAD {
                    return Err(EncodeError::TooLarge);
                }
                Ok(PhiraRecord::assemble(compressed.as_slice()))
            },
            Err(_) => Err(EncodeError::Compress),
        }
    }

    /// A record file with a compressed payload.
    pub fn assemble(compressed: &[u8]) -> (res: Vec<u8>)
        requires
            compressed@.len() + RECORD_HEAD <= isize::MAX,
        ensures
            res@ == record_file(compressed@),
    {
        let head: [u8; 8] = [0x50, 0x48, 0x49, 0x52, 0x41, 0x52, 0x45, 0x43];
        let mut buf = buffer::buffer_with_capacity(RECORD_HEAD + compressed.len());
        assert(head@ =~= magic());
        buffer::put_slice(&mut buf, head.as_slice());
        proof {
            bin::lemma_le_bytes_four(bin::unsigned32(PHIRAREC_VERSION) as nat);
        }
        buffer::put_i32_le(&mut buf, PHIRAREC_VERSION);
        buffer::put_u8(&mut buf, COMPRESSION_ZSTD);
        buffer::put_slice(&mut buf, compressed);
        assert(buffer::contents(buf) =~= record_file(compressed@));
        buffer::into_vec(buf)
    }

    /// Whether the payload of this record is no larger than the buffer that it is built in
    /// can be.
    pub fn payload_fits(&self) -> (res: bool)
        ensures
            res == (payload(self@).len() <= buffer::max_buffer()),
    {
        let limit: u128 = isize::MAX as u128 / 2;
        let frames: &Vec<ReplayTouchFrame> = &self.touch_frames;
        let ghost all = list_views(frames@);
        let events: usize = self.judge_events.len();
        let chart: usize = self.chart_name.as_str().as_bytes().len();
        let user: usize = self.user_name.as_str().as_bytes().len();
        proof {
            lemma_payload_len(self@);
        }
        let mut total: u128 = 20 + varint_size(chart) as u128 + chart as u128 + varint_size(
            user,
        ) as u128 + user as u128 + varint_size(frames.len()) as u128 + varint_size(
            events,
        ) as u128 + 13 * (events as u128);
        let ghost rest = total as nat;
        let mut i: usize = 0;
        assert(all.skip(0) =~= all);
        while i < frames.len()
            invariant
                i <= frames.len(),
                all == list_views(frames@),
                limit == buffer::max_buffer(),
                total < 0x100_0000_0000_0000_0000,
                total + frames_bytes(all.skip(i as int)).len() == rest + frames_bytes(all).len(),
                payload(self@).len() == rest + frames_bytes(all).len(),
            decreases frames.len() - i,
        {
            if total > limit {
                return false;
            }
            proof {
                let here = all.skip(i as int);
                assert(here[0] == frames@[i as int]@);
                assert(here.skip(1) =~= all.skip(i + 1));
                lemma_le_bytes_len(frames@[i as int].time as nat, 4);
                lemma_points_len(frames@[i as int].points@);
            }
            total = total + 4 + varint_size(frames[i].points.len()) as u128 + 5 * (
            frames[i].points.len() as u128);
            i += 1;
        }
        assert(all.skip(i as int) =~= Seq::empty());
        total <= limit
    }

    /// The payload of this record.
    pub fn encode_payload(&self) -> (res: Vec<u8>)
        requires
            payload(self@).len() <= buffer::max_buffer(),
        ensures
            res@ == payload(self@),
    {
        let mut buf = buffer::new_buffer();
        proof {
            lemma_le_bytes_len(bin::unsigned32(self.id) as nat, 4);
            lemma_le_bytes_len(self.time as nat, 8);
            lemma_le_bytes_len(bin::unsigned32(self.chart) as nat, 4);
            lemma_le_bytes_len(bin::unsigned32(self.user) as nat, 4);
        }
        buffer::put_i32_le(&mut buf, self.id);
        buffer::put_u64_le(&mut buf, self.time);
        buffer::put_i32_le(&mut buf, self.chart);
        PhiraRecord::write_string(&mut buf, self.chart_name.as_str());
        buffer::put_i32_le(&mut buf, self.user);
        PhiraRecord::write_string(&mut buf, self.user_name.as_str());
        PhiraRecord::write_touch_frames(&mut buf, &self.touch_frames);
        PhiraRecord::write_judge_events(&mut buf, &self.judge_events);
        assert(buffer::contents(buf) =~= payload(self@));
        buffer::into_vec(buf)
    }

    /// Appends a text.
    fn write_string(buf: &mut BytesMut, s: &str)
        requires
            buffer::contents(*old(buf)).len() + record_text(s@).len() <= buffer::max_buffer(),
        ensures
            buffer::contents(*final(buf)) == buffer::contents(*old(buf)) + record_text(s@),
    {
        let bytes = s.as_bytes();
        PhiraRecord::write_varint32(buf, bytes.len());
        buffer::put_slice(buf, bytes);
        assert(buffer::contents(*buf) =~= buffer::contents(*old(buf)) + record_text(s@));
    }

    /// Appends the low 32 bits of a length, in LEB128.
    fn write_varint32(buf: &mut BytesMut, len: usize)
        requires
            buffer::contents(*old(buf)).len() + varint32(len as nat).len()
                <= buffer::max_buffer(),
        ensures
            buffer::contents(*final(buf)) == buffer::contents(*old(buf)) + varint32(len as nat),
    {
        let mut value: u64 = len as u64 % 0x1_0000_0000;
        let ghost start = buffer::contents(*buf);
        let ghost whole = varint32(len as nat);
        while value >= 128
            invariant
                buffer::contents(*buf) + bin::uleb_bytes(value as nat) == start + whole,
                start.len() + whole.len() <= buffer::max_buffer(),
            decreases value,
        {
            let ghost before = buffer::contents(*buf);
            proof {
                assert((before + bin::uleb_bytes(value as nat)).len() == (start + whole).len());
            }
            buffer::put_u8(buf, (value % 128 + 128) as u8);
            assert(buffer::contents(*buf) + bin::uleb_bytes((value / 128) as nat) =~= before
                + bin::uleb_bytes(value as nat));
            value = value / 128;
        }
        proof {
            assert((buffer::contents(*buf) + bin::uleb_bytes(value as nat)).len() == (start
                + whole).len());
        }
        buffer::put_u8(buf, value as u8);
        assert(buffer::contents(*buf) =~= start + whole);
    }

    /// Appends a list of touch frames.
    fn write_touch_frames(buf: &mut BytesMut, frames: &Vec<ReplayTouchFrame>)
        requires
            buffer::contents(*old(buf)).len() + (varint32(frames@.len()) + frames_bytes(
                list_views(frames@),
            )).len() <= buffer::max_buffer(),
        ensures
            buffer::contents(*final(buf)) == buffer::contents(*old(buf)) + (varint32(
                frames@.len(),
            ) + frames_bytes(list_views(frames@))),
    {
        let ghost all = list_views(frames@);
        PhiraRecord::write_varint32(buf, frames.len());
        let ghost start = buffer::contents(*buf);
        let mut i: usize = 0;
        assert(all.skip(0) =~= all);
        while i < frames.len()
            invariant
                i <= frames.len(),
                all == list_views(frames@),
                start.len() + frames_bytes(all).len() <= buffer::max_buffer(),
                buffer::contents(*buf) + frames_bytes(all.skip(i as int)) == start + frames_bytes(
                    all,
                ),
            decreases frames.len() - i,
        {
            let ghost before = buffer::contents(*buf);
            let ghost here = all.skip(i as int);
            proof {
                assert(here[0] == frames@[i as int]@);
                assert(here.skip(1) =~= all.skip(i + 1));
                assert((before + frames_bytes(here)).len() == (start + frames_bytes(all)).len());
                lemma_le_bytes_len(frames@[i as int].time as nat, 4);
            }
            buffer::put_u32_le(buf, frames[i].time);
            PhiraRecord::write_touch_points(buf, &frames[i].points);
            assert(buffer::contents(*buf) + frames_bytes(all.skip(i + 1)) =~= before
                + frames_bytes(here));
            i += 1;
        }
        assert(all.skip(i as int) =~= Seq::empty());
        assert(buffer::contents(*buf) =~= start + frames_bytes(all));
        assert(buffer::contents(*buf) =~= buffer::contents(*old(buf)) + (varint32(frames@.len())
            + frames_bytes(all)));
    }

    /// Appends a list of fingers.
    fn write_touch_points(buf: &mut BytesMut, points: &Vec<ReplayTouchPoint>)
        requires
            buffer::contents(*old(buf)).len() + (varint32(points@.len()) + points_bytes(
                points@,
            )).len() <= buffer::max_buffer(),
        ensures
            buffer::contents(*final(buf)) == buffer::contents(*old(buf)) + (varint32(
                points@.len(),
            ) + points_bytes(points@)),
    {
        PhiraRecord::write_varint32(buf, points.len());
        let ghost start = buffer::contents(*buf);
        let mut i: usize = 0;
        assert(points@.skip(0) =~= points@);
        while i < points.len()
            invariant
                i <= points.len(),
                start.len() + points_bytes(points@).len() <= buffer::max_buffer(),
                buffer::contents(*buf) + points_bytes(points@.skip(i as int)) == start
                    + points_bytes(points@),
            decreases points.len() - i,
        {
            let ghost before = buffer::contents(*buf);
            let ghost here = points@.skip(i as int);
            let point: ReplayTouchPoint = points[i];
            proof {
                assert(here[0] == point);
                assert(here.skip(1) =~= points@.skip(i + 1));
                assert((before + points_bytes(here)).len() == (start + points_bytes(
                    points@,
                )).len());
                lemma_le_bytes_len(unit_half(point.x) as nat, 2);
                lemma_le_bytes_len(unit_half(point.y) as nat, 2);
            }
            buffer::put_u8(buf, point.id);
            buffer::put_u16_le(buf, clamp_unit_half(point.x));
            buffer::put_u16_le(buf, clamp_unit_half(point.y));
            assert(buffer::contents(*buf) + points_bytes(points@.skip(i + 1)) =~= before
                + points_bytes(here));
            i += 1;
        }
        assert(points@.skip(i as int) =~= Seq::empty());
        assert(buffer::contents(*buf) =~= start + points_bytes(points@));
        assert(buffer::contents(*buf) =~= buffer::contents(*old(buf)) + (varint32(points@.len())
            + points_bytes(points@)));
    }

    /// Appends a list of judgements.
    fn write_judge_events(buf: &mut BytesMut, events: &Vec<ReplayJudgeEvent>)
        requires
            buffer::contents(*old(buf)).len() + (varint32(events@.len()) + events_bytes(
                events@,
            )).len() <= buffer::max_buffer(),
        ensures
            buffer::contents(*final(buf)) == buffer::contents(*old(buf)) + (varint32(
                events@.len(),
            ) + events_bytes(events@)),
    {
        PhiraRecord::write_varint32(buf, events.len());
        let ghost start = buffer::contents(*buf);
        let mut i: usize = 0;
        assert(events@.skip(0) =~= events@);
        while i < events.len()
            invariant
                i <= events.len(),
                start.len() + events_bytes(events@).len() <= buffer::max_buffer(),
                buffer::contents(*buf) + events_bytes(events@.skip(i as int)) == start
                    + events_bytes(events@),
            decreases events.len() - i,
        {
            let ghost before = buffer::contents(*buf);
            let ghost here = events@.skip(i as int);
            let event: ReplayJudgeEvent = events[i];
            proof {
                assert(here[0] == event);
                assert(here.skip(1) =~= events@.skip(i + 1));
                assert((before + events_bytes(here)).len() == (start + events_bytes(
                    events@,
                )).len());
                lemma_le_bytes_len(event.time as nat, 4);
                lemma_le_bytes_len(bin::unsigned32(event.line_id) as nat, 4);
                lemma_le_bytes_len(bin::unsigned32(event.note_id) as nat, 4);
            }
            buffer::put_u32_le(buf, event.time);
            buffer::put_i32_le(buf, event.line_id);
            buffer::put_i32_le(buf, event.note_id);
            buffer::put_u8(buf, event.judgement.to_byte());
            assert(buffer::contents(*buf) + events_bytes(events@.skip(i + 1)) =~= before
                + events_bytes(here));
            i += 1;
        }
        assert(events@.skip(i as int) =~= Seq::empty());
        assert(buffer::contents(*buf) =~= start + events_bytes(events@));
        assert(buffer::contents(*buf) =~= buffer::contents(*old(buf)) + (varint32(events@.len())
            + events_bytes(events@)));
    }
}

/// The number of little endian bytes.
pub proof fn lemma_le_bytes_len(v: nat, n: nat)
    ensures
        bin::le_bytes(v, n).len() == n,
    decreases n,
{
    if n > 0 {
        lemma_le_bytes_len(v / 256, (n - 1) as nat);
    }
}

/// The number of bytes of fingers.
proof fn lemma_points_len(s: Seq<ReplayTouchPoint>)
    ensures
        points_bytes(s).len() == 5 * s.len(),
    decreases s.len(),
{
    if s.len() > 0 {
        lemma_le_bytes_len(unit_half(s[0].x) as nat, 2);
        lemma_le_bytes_len(unit_half(s[0].y) as nat, 2);
        lemma_points_len(s.skip(1));
    }
}

/// The number of bytes of judgements.
proof fn lemma_events_len(s: Seq<ReplayJudgeEvent>)
    ensures
        events_bytes(s).len() == 13 * s.len(),
    decreases s.len(),
{
    if s.len() > 0 {
        lemma_le_bytes_len(s[0].time as nat, 4);
        lemma_le_bytes_len(bin::unsigned32(s[0].line_id) as nat, 4);
        lemma_le_bytes_len(bin::unsigned32(s[0].note_id) as nat, 4);
        lemma_events_len(s.skip(1));
    }
}

/// The number of bytes of a payload.
proof fn lemma_payload_len(r: RecordModel)
    ensures
        payload(r).len() == 20 + varint32(encode_utf8(r.chart_name).len()).len() + encode_utf8(
            r.chart_name,
        ).len() + varint32(encode_utf8(r.user_name).len()).len() + encode_utf8(r.user_name).len()
            + varint32(r.touch_frames.len()).len() + frames_bytes(r.touch_frames).len() + varint32(
            r.judge_events.len(),
        ).len() + 13 * r.judge_events.len(),
{
    lemma_le_bytes_len(bin::unsigned32(r.id) as nat, 4);
    lemma_le_bytes_len(r.time as nat, 8);
    lemma_le_bytes_len(bin::unsigned32(r.chart) as nat, 4);
    lemma_le_bytes_len(bin::unsigned32(r.user) as nat, 4);
    lemma_events_len(r.judge_events);
}

/// The number of bytes that a length takes.
fn varint_size(len: usize) -> (res: usize)
    ensures
        res == varint32(len as nat).len(),
        res <= 5,
{
    let mut value: u64 = len as u64 % 0x1_0000_0000;
    let mut n: usize = 1;
    let ghost whole = varint32(len as nat);
    proof {
        reveal_with_fuel(bin::pow128, 6);
    }
    while value >= 128
        invariant
            1 <= n <= 5,
            value < bin::pow128((6 - n) as nat),
            n - 1 + bin::uleb_bytes(value as nat).len() == whole.len(),
        decreases value,
    {
        proof {
            reveal_with_fuel(bin::pow128, 2);
            assert(bin::pow128((6 - n) as nat) == 128 * bin::pow128((5 - n) as nat));
        }
        value = value / 128;
        n += 1;
    }
    n
}

/// The answer of the service that takes replays.
#[derive(Debug, PartialEq, Eq)]
pub struct UploadResponse {
    pub success: bool,
    pub message: String,
    pub replay_id: Option<String>,
}

/// An id of a replay as the service writes it.
#[derive(Debug, PartialEq, Eq)]
pub enum ReplayIdValue {
    Missing,
    Text(String),
    Signed(i64),
    Unsigned(u64),
}

/// The text of an id of a replay: as it is, or a number in decimal.
pub fn replay_id_text(value: ReplayIdValue) -> (res: Option<String>)
    ensures
        match value {
            ReplayIdValue::Missing => res is None,
            ReplayIdValue::Text(s) => res matches Some(t) && t@ == s@,
            ReplayIdValue::Signed(v) => res matches Some(t) && t@ == text::dec(v as int),
            ReplayIdValue::Unsigned(v) => res matches Some(t) && t@ == text::dec(v as int),
        },
{
    match value {
        ReplayIdValue::Missing => None,
        ReplayIdValue::Text(s) => Some(s),
        ReplayIdValue::Signed(v) => Some(text::i64_text(v)),
        ReplayIdValue::Unsigned(v) => Some(text::u64_text(v)),
    }
}

/// The line that separates the parts of a form.
pub open spec fn boundary_of(random: u64) -> Seq<char> {
    "----WebKitFormBoundary"@ + text::dec(random as int)
}

/// The separator made from a random number.
pub fn boundary_from(random: u64) -> (res: String)
    ensures
        res@ == boundary_of(random),
{
    let mut s: String = "----WebKitFormBoundary".to_owned();
    s.append(text::u64_text(random).as_str());
    s
}

/// A fresh separator.
pub fn fresh_boundary() -> (res: String)
    ensures
        exists|random: u64| res@ == #[trigger] boundary_of(random),
{
    let random: u64 = random_u64();
    boundary_from(random)
}

/// A text field of a form.
pub open spec fn form_field(boundary: Seq<char>, name: Seq<char>, value: Seq<char>) -> Seq<char> {
    "--"@ + boundary + "\r\n"@ + "Content-Disposition: form-data; name=\""@ + name + "\"\r\n\r\n"@
        + value + "\r\n"@
}

/// The beginning of a form that uploads a file.
pub open spec fn form_head(boundary: Seq<char>) -> Seq<char> {
    "--"@ + boundary + "\r\n"@
        + "Content-Disposition: form-data; name=\"file\"; filename=\"replay.phirarec\"\r\n"@
        + "Content-Type: application/octet-stream\r\n\r\n"@
}

/// The end of a form that uploads a file, with the fields that are given.
pub open spec fn form_tail(
    boundary: Seq<char>,
    chart_name: Option<Seq<char>>,
    username: Option<Seq<char>>,
) -> Seq<char> {
    "\r\n"@ + (match chart_name {
        Some(name) => form_field(boundary, "chart_name"@, name),
        None => Seq::empty(),
    }) + (match username {
        Some(name) => form_field(boundary, "username"@, name),
        None => Seq::empty(),
    }) + ("--"@ + boundary + "--\r\n"@)
}

/// The body of a form that uploads a file.
pub open spec fn form_body(
    boundary: Seq<char>,
    file: Seq<u8>,
    chart_name: Option<Seq<char>>,
    username: Option<Seq<char>>,
) -> Seq<u8> {
    encode_utf8(form_head(boundary)) + file + encode_utf8(
        form_tail(boundary, chart_name, username),
    )
}

/// A text field of a form.
fn field_text(boundary: &str, name: &str, value: &str) -> (res: String)
    ensures
        res@ == form_field(boundary@, name@, value@),
{
    let mut s: String = "--".to_owned();
    s.append(boundary);
    s.append("\r\n");
    s.append("Content-Disposition: form-data; name=\"");
    s.append(name);
    s.append("\"\r\n\r\n");
    s.append(value);
    s.append("\r\n");
    s
}

/// The view of an optional text.
pub open spec fn optional_text(s: Option<&str>) -> Option<Seq<char>> {
    match s {
        Some(t) => Some(t@),
        None => None,
    }
}

/// The body of a form that uploads a file.
pub fn upload_form(
    boundary: &str,
    file: &[u8],
    chart_name: Option<&str>,
    username: Option<&str>,
) -> (res: Vec<u8>)
    ensures
        res@ == form_body(boundary@, file@, optional_text(chart_name), optional_text(username)),
{
    let mut head: String = "--".to_owned();
    head.append(boundary);
    head.append("\r\n");
    head.append("Content-Disposition: form-data; name=\"file\"; filename=\"replay.phirarec\"\r\n");
    head.append("Content-Type: application/octet-stream\r\n\r\n");
    let mut tail: String = "\r\n".to_owned();
    let ghost t0 = tail@;
    match chart_name {
        Some(name) => {
            tail.append(field_text(boundary, "chart_name", name).as_str());
        },
        None => {},
    }
    let ghost t1 = tail@;
    assert(t1 =~= t0 + (match optional_text(chart_name) {
        Some(name) => form_field(boundary@, "chart_name"@, name),
        None => Seq::empty(),
    }));
    match username {
        Some(name) => {
            tail.append(field_text(boundary, "username", name).as_str());
        },
        None => {},
    }
    let ghost t2 = tail@;
    assert(t2 =~= t1 + (match optional_text(username) {
        Some(name) => form_field(boundary@, "username"@, name),
        None => Seq::empty(),
    }));
    let mut end: String = "--".to_owned();
    end.append(boundary);
    end.append("--\r\n");
    tail.append(end.as_str());
    assert(tail@ =~= form_tail(boundary@, optional_text(chart_name), optional_text(username)));
    let mut res: Vec<u8> = Vec::new();
    res.extend_from_slice(head.as_str().as_bytes());
    res.extend_from_slice(file);
    res.extend_from_slice(tail.as_str().as_bytes());
    assert(res@ =~= form_body(
        boundary@,
        file@,
        optional_text(chart_name),
        optional_text(username),
    ));
    res
}

/// A request that uploads a record.
#[derive(Debug, PartialEq, Eq)]
pub struct UploadRequest {
    pub authorization: String,
    pub content_type: String,
    pub body: Vec<u8>,
}

/// The request that uploads a record file, with the token of the server and a separator.
pub fn upload_request(
    token: &str,
    boundary: &str,
    file: &[u8],
    chart_name: Option<&str>,
    username: Option<&str>,
) -> (res: UploadRequest)
    ensures
        res.authorization@ == "Bearer "@ + token@,
        res.content_type@ == "multipart/form-data; boundary="@ + boundary@,
        res.body@ == form_body(
            boundary@,
            file@,
            optional_text(chart_name),
            optional_text(username),
        ),
{
    let mut authorization: String = "Bearer ".to_owned();
    authorization.append(token);
    let mut content_type: String = "multipart/form-data; boundary=".to_owned();
    content_type.append(boundary);
    UploadRequest {
        authorization,
        content_type,
        body: upload_form(boundary, file, chart_name, username),
    }
}

/// The text for an upload that was refused, with the status and the answer of the service.
pub fn upload_failure(status: &str, answer: &str) -> (res: String)
    ensures
        res@ == "Upload failed with status "@ + status@ + ": "@ + answer@,
{
    let mut s: String = "Upload failed with status ".to_owned();
    s.append(status);
    s.append(": ");
    s.append(answer);
    s
}

/// How many uploads were answered, and how many of them were successful.
pub open spec fn upload_counts(results: Seq<Option<UploadResponse>>) -> (nat, nat)
    decreases results.len(),
{
    if results.len() == 0 {
        (0, 0)
    } else {
        let (answered, good) = upload_counts(results.drop_last());
        match results.last() {
            Some(r) => (
                answered + 1,
                if r.success {
                    good + 1
                } else {
                    good
                },
            ),
            None => (answered, good),
        }
    }
}

/// Counts the uploads that were answered, and those that were successful.
pub fn count_uploads(results: &Vec<Option<UploadResponse>>) -> (res: (usize, usize))
    ensures
        res.0 == upload_counts(results@).0,
        res.1 == upload_counts(results@).1,
        res.1 <= res.0 <= results@.len(),
{
    let mut answered: usize = 0;
    let mut good: usize = 0;
    let mut i: usize = 0;
    assert(results@.take(0) =~= Seq::empty());
    while i < results.len()
        invariant
            i <= results.len(),
            good <= answered <= i,
            answered == upload_counts(results@.take(i as int)).0,
            good == upload_counts(results@.take(i as int)).1,
        decreases results.len() - i,
    {
        assert(results@.take(i + 1).drop_last() =~= results@.take(i as int));
        if let Some(r) = &results[i] {
            answered += 1;
            if r.success {
                good += 1;
            }
        }
        i += 1;
    }
    assert(results@.take(i as int) =~= results@);
    (answered, good)
}

/// The recorders of all rooms.
#[derive(Debug, PartialEq, Eq)]
pub struct ReplayManager {
    pub room_managers: Table<String, RoomReplayManager>,
}

impl View for ReplayManager {
    type V = Seq<(Seq<char>, RecorderModel)>;

    open spec fn view(&self) -> Seq<(Seq<char>, RecorderModel)> {
        table::views(self.room_managers@)
    }
}

/// The recorders with a new one for a room.
pub open spec fn created(
    s: Seq<(Seq<char>, RecorderModel)>,
    room: Seq<char>,
    chart_id: i32,
    chart_name: Seq<char>,
) -> Seq<(Seq<char>, RecorderModel)> {
    table::put(s, room, new_recorder(room, chart_id, chart_name))
}

/// The recorders after a player came into a room.
pub open spec fn player_came(
    s: Seq<(Seq<char>, RecorderModel)>,
    room: Seq<char>,
    user_id: i32,
    name: Seq<char>,
) -> Seq<(Seq<char>, RecorderModel)> {
    match table::lookup(s, room) {
        Some(m) => table::put(s, room, with_player(m, user_id, name)),
        None => s,
    }
}

/// The recorders after a player of a room touched the screen.
pub open spec fn touched(
    s: Seq<(Seq<char>, RecorderModel)>,
    room: Seq<char>,
    user_id: i32,
    frames: Seq<TouchFrameModel>,
) -> Seq<(Seq<char>, RecorderModel)> {
    match table::lookup(s, room) {
        Some(m) => table::put(s, room, with_frames(m, user_id, frames)),
        None => s,
    }
}

/// The recorders after a player of a room hit notes.
pub open spec fn judged(
    s: Seq<(Seq<char>, RecorderModel)>,
    room: Seq<char>,
    user_id: i32,
    events: Seq<JudgeEvent>,
) -> Seq<(Seq<char>, RecorderModel)> {
    match table::lookup(s, room) {
        Some(m) => table::put(s, room, with_events(m, user_id, events)),
        None => s,
    }
}

/// The recorders after a room began or stopped to record.
pub open spec fn recording_set(
    s: Seq<(Seq<char>, RecorderModel)>,
    room: Seq<char>,
    recording: bool,
) -> Seq<(Seq<char>, RecorderModel)> {
    match table::lookup(s, room) {
        Some(m) => table::put(s, room, RecorderModel { recording, ..m }),
        None => s,
    }
}

/// The recorders after the chart of a room was chosen.
pub open spec fn chart_set(
    s: Seq<(Seq<char>, RecorderModel)>,
    room: Seq<char>,
    chart_id: i32,
    chart_name: Seq<char>,
) -> Seq<(Seq<char>, RecorderModel)> {
    match table::lookup(s, room) {
        Some(m) => table::put(s, room, RecorderModel { chart_id, chart_name, ..m }),
        None => s,
    }
}

impl ReplayManager {
    /// No recorders.
    pub fn new() -> (res: ReplayManager)
        ensures
            res@ == Seq::<(Seq<char>, RecorderModel)>::empty(),
    {
        ReplayManager { room_managers: Table::new() }
    }

    /// A new recorder for a room.
    pub fn create_room_manager(
        &mut self,
        room_id: String,
        chart_id: i32,
        chart_name: String,
    ) -> (res: &mut RoomReplayManager)
        ensures
            (*res)@ == new_recorder(room_id@, chart_id, chart_name@),
            final(self)@ == table::put(old(self)@, room_id@, final(res)@),
    {
        let manager = RoomReplayManager::new(room_id.clone(), chart_id, chart_name);
        let _ = self.room_managers.insert(room_id.clone(), manager);
        proof {
            table::lemma_find(old(self).room_managers@, room_id@);
            table::lemma_find_is(
                self.room_managers@,
                room_id@,
                table::find(old(self).room_managers@, room_id@),
            );
        }
        let i: usize = self.room_managers.position(&room_id);
        self.room_managers.value_mut(i)
    }

    /// The recorder of a room, to be changed.
    pub fn get_room_manager(&mut self, room_id: &String) -> (res: Option<&mut RoomReplayManager>)
        ensures
            match res {
                Some(m) => {
                    &&& table::lookup(old(self)@, room_id@) == Some((*m)@)
                    &&& final(self)@ == table::put(old(self)@, room_id@, final(m)@)
                },
                None => table::lookup(old(self)@, room_id@) is None && final(self)@ == old(self)@,
            },
    {
        self.room_managers.get_mut(room_id)
    }

    /// Drops the recorder of a room.
    pub fn remove_room_manager(&mut self, room_id: &String) -> (res: Option<RoomReplayManager>)
        ensures
            final(self)@ == table::without(old(self)@, room_id@),
            match res {
                Some(m) => table::lookup(old(self)@, room_id@) == Some(m@),
                None => table::lookup(old(self)@, room_id@) is None,
            },
    {
        self.room_managers.remove(room_id)
    }

    /// A player comes into a room.
    pub fn init_player(&mut self, room_id: &String, user_id: i32, user_name: String)
        ensures
            final(self)@ == player_came(old(self)@, room_id@, user_id, user_name@),
    {
        if let Some(manager) = self.room_managers.get_mut(room_id) {
            manager.init_player(user_id, user_name);
        }
    }

    /// A player of a room touches the screen.
    pub fn record_touch_frames(
        &mut self,
        room_id: &String,
        user_id: i32,
        frames: &Vec<TouchFrame>,
    )
        ensures
            final(self)@ == touched(old(self)@, room_id@, user_id, frames.model()),
    {
        if let Some(manager) = self.room_managers.get_mut(room_id) {
            manager.record_touch_frames(user_id, frames);
        }
    }

    /// A player of a room hits notes.
    pub fn record_judge_events(
        &mut self,
        room_id: &String,
        user_id: i32,
        events: &Vec<JudgeEvent>,
    )
        ensures
            final(self)@ == judged(old(self)@, room_id@, user_id, events@),
    {
        if let Some(manager) = self.room_managers.get_mut(room_id) {
            manager.record_judge_events(user_id, events);
        }
    }

    /// Begins to record a room.
    pub fn start_recording(&mut self, room_id: &String)
        ensures
            final(self)@ == recording_set(old(self)@, room_id@, true),
    {
        if let Some(manager) = self.room_managers.get_mut(room_id) {
            manager.start_recording();
        }
    }

    /// Stops recording a room.
    pub fn stop_recording(&mut self, room_id: &String)
        ensures
            final(self)@ == recording_set(old(self)@, room_id@, false),
    {
        if let Some(manager) = self.room_managers.get_mut(room_id) {
            manager.stop_recording();
        }
    }

    /// The chart of a room was chosen.
    pub fn set_chart(&mut self, room_id: &String, chart_id: i32, chart_name: String)
        ensures
            final(self)@ == chart_set(old(self)@, room_id@, chart_id, chart_name@),
    {
        if let Some(manager) = self.room_managers.get_mut(room_id) {
            manager.chart_id = chart_id;
            manager.chart_name = chart_name;
        }
    }

    /// The players of a room whose records are kept; none where the room has no recorder.
    pub fn players_to_save(&self, room_id: &String) -> (res: Vec<i32>)
        ensures
            res@ == (match table::lookup(self@, room_id@) {
                Some(m) => kept_players(m.caches),
                None => Seq::empty(),
            }),
    {
        match self.room_managers.get(room_id) {
            Some(manager) => manager.players_to_save(),
            None => Vec::new(),
        }
    }
}

/// Whether a judgement in a record is the one that a player sent.
pub open spec fn same_judgement(a: JudgementType, b: Judgement) -> bool {
    ||| a == JudgementType::Perfect && b == Judgement::Perfect
    ||| a == JudgementType::Good && b == Judgement::Good
    ||| a == JudgementType::Bad && b == Judgement::Bad
    ||| a == JudgementType::Miss && b == Judgement::Miss
    ||| a == JudgementType::HoldPerfect && b == Judgement::HoldPerfect
    ||| a == JudgementType::HoldGood && b == Judgement::HoldGood
}

/// What a player's record holds after they have hit notes: what it held before, and then each
/// note as it was sent, with its moment, its line, its number and its judgement, in order. What
/// the other players did is as it was.
pub proof fn law_notes_recorded(
    m: RecorderModel,
    user_id: i32,
    c: CacheModel,
    events: Seq<JudgeEvent>,
    other: i32,
)
    requires
        table::lookup(m.caches, user_id) == Some(c),
        user_id != -999,
    ensures
        ({
            let n = with_events(m, user_id, events);
            &&& table::lookup(n.caches, user_id) matches Some(d) && {
                &&& d.user_id == c.user_id
                &&& d.user_name == c.user_name
                &&& d.touch_frames == c.touch_frames
                &&& d.judge_events.len() == c.judge_events.len() + events.len()
                &&& forall|i: int|
                    0 <= i < c.judge_events.len() ==> #[trigger] d.judge_events[i]
                        == c.judge_events[i]
                &&& forall|i: int|
                    0 <= i < events.len() ==> {
                        let e = d.judge_events[c.judge_events.len() + i];
                        &&& e.time == (#[trigger] events[i]).time
                        &&& e.line_id == events[i].line_id
                        &&& e.note_id == events[i].note_id
                        &&& same_judgement(e.judgement, events[i].judgement)
                    }
            }
            &&& other != user_id ==> table::lookup(n.caches, other) == table::lookup(
                m.caches,
                other,
            )
            &&& n.room_id == m.room_id
            &&& n.chart_id == m.chart_id
            &&& n.chart_name == m.chart_name
        }),
{
    let recording = m.recording || events.len() > 0;
    let d = CacheModel { judge_events: c.judge_events + replay_events(events), ..c };
    table::lemma_put_lookup(m.caches, user_id, d, user_id);
    table::lemma_put_lookup(m.caches, user_id, d, other);
    if !recording {
        assert(d.judge_events =~= c.judge_events);
    }
}

/// What a player's record holds after they have touched the screen: what it held before, and
/// then each touch as it was sent, with its moment, and each finger with its number and where it
/// was, in order. What the other players did is as it was.
pub proof fn law_touches_recorded(
    m: RecorderModel,
    user_id: i32,
    c: CacheModel,
    frames: Seq<TouchFrameModel>,
    other: i32,
)
    requires
        table::lookup(m.caches, user_id) == Some(c),
        user_id != -999,
    ensures
        ({
            let n = with_frames(m, user_id, frames);
            &&& table::lookup(n.caches, user_id) matches Some(d) && {
                &&& d.user_id == c.user_id
                &&& d.user_name == c.user_name
                &&& d.judge_events == c.judge_events
                &&& d.touch_frames.len() == c.touch_frames.len() + frames.len()
                &&& forall|i: int|
                    0 <= i < c.touch_frames.len() ==> #[trigger] d.touch_frames[i]
                        == c.touch_frames[i]
                &&& forall|i: int|
                    0 <= i < frames.len() ==> {
                        let f = d.touch_frames[c.touch_frames.len() + i];
                        &&& f.time == (#[trigger] frames[i]).time
                        &&& f.points.len() == frames[i].points.len()
                    }
                &&& forall|i: int, k: int|
                    0 <= i < frames.len() && 0 <= k < frames[i].points.len() ==> {
                        let p = d.touch_frames[c.touch_frames.len() + i].points[k];
                        let q = #[trigger] frames[i].points[k];
                        &&& p.id as int == q.0 as int % 256
                        &&& p.x == q.1.x
                        &&& p.y == q.1.y
                    }
            }
            &&& other != user_id ==> table::lookup(n.caches, other) == table::lookup(
                m.caches,
                other,
            )
            &&& n.room_id == m.room_id
            &&& n.chart_id == m.chart_id
            &&& n.chart_name == m.chart_name
        }),
{
    let recording = m.recording || frames.len() > 0;
    let d = CacheModel { touch_frames: c.touch_frames + replay_frames(frames), ..c };
    table::lemma_put_lookup(m.caches, user_id, d, user_id);
    table::lemma_put_lookup(m.caches, user_id, d, other);
    if !recording {
        assert(d.touch_frames =~= c.touch_frames);
    }
    assert forall|i: int, k: int|
        0 <= i < frames.len() && 0 <= k < frames[i].points.len() implies {
        let p = d.touch_frames[c.touch_frames.len() + i].points[k];
        let q = #[trigger] frames[i].points[k];
        &&& p.id as int == q.0 as int % 256
        &&& p.x == q.1.x
        &&& p.y == q.1.y
    } by {
        let f = d.touch_frames[c.touch_frames.len() + i];
        assert(f == replay_frame(frames[i]));
        let v = frames[i].points[k].0;
        if v < 0 {
            assert(v as int % 256 == v + 256);
        }
    }
}

/// Nothing is recorded of someone who did not come into the room, nor of the recorder, and a
/// recorder that has been started goes on recording until it is stopped.
pub proof fn law_strangers_not_recorded(
    m: RecorderModel,
    user_id: i32,
    frames: Seq<TouchFrameModel>,
    events: Seq<JudgeEvent>,
)
    requires
        table::lookup(m.caches, user_id) is None || user_id == -999,
    ensures
        with_frames(m, user_id, frames).caches == m.caches,
        with_events(m, user_id, events).caches == m.caches,
        with_frames(m, user_id, frames).recording <==> m.recording || frames.len() > 0,
        with_events(m, user_id, events).recording <==> m.recording || events.len() > 0,
{
}

/// Someone who comes into a room has done nothing yet, and what the others did is as it was.
pub proof fn law_player_comes(m: RecorderModel, user_id: i32, name: Seq<char>, other: i32)
    ensures
        ({
            let n = with_player(m, user_id, name);
            &&& table::lookup(n.caches, user_id) matches Some(c) && c.user_id == user_id
                && c.user_name == name && c.touch_frames.len() == 0 && c.judge_events.len() == 0
            &&& other != user_id ==> table::lookup(n.caches, other) == table::lookup(
                m.caches,
                other,
            )
            &&& n.recording == m.recording
            &&& n.chart_id == m.chart_id
            &&& n.chart_name == m.chart_name
        }),
{
    table::lemma_put_lookup(m.caches, user_id, new_cache(user_id, name), user_id);
    table::lemma_put_lookup(m.caches, user_id, new_cache(user_id, name), other);
}

/// The records that are kept are those of all who came into the room, but for those with a
/// negative number.
pub proof fn law_whose_records(caches: Seq<(i32, CacheModel)>, user: i32)
    ensures
        kept_players(caches).contains(user) <==> user >= 0 && exists|i: int|
            0 <= i < caches.len() && (#[trigger] caches[i]).0 == user,
    decreases caches.len(),
{
    if caches.len() > 0 {
        let front = caches.drop_last();
        let kept = kept_players(caches);
        law_whose_records(front, user);
        if kept.contains(user) {
            let i = choose|i: int| 0 <= i < kept.len() && kept[i] == user;
            if i < kept_players(front).len() {
                assert(kept_players(front)[i] == user);
                let k = choose|k: int| 0 <= k < front.len() && (#[trigger] front[k]).0 == user;
                assert(caches[k].0 == user);
            } else {
                assert(caches[caches.len() - 1].0 == user);
            }
        }
        if user >= 0 && exists|i: int| 0 <= i < caches.len() && (#[trigger] caches[i]).0 == user {
            let i = choose|i: int| 0 <= i < caches.len() && (#[trigger] caches[i]).0 == user;
            if i < front.len() {
                assert(front[i].0 == user);
                let k = choose|k: int|
                    0 <= k < kept_players(front).len() && kept_players(front)[k] == user;
                assert(kept[k] == user);
            } else {
                assert(kept[kept.len() - 1] == user);
            }
        }
    }
}

/// The record of a player's game tells who played which chart, when, and what they did.
pub proof fn law_record_tells(
    m: RecorderModel,
    user: i32,
    c: CacheModel,
    id: i32,
    timestamp: u64,
)
    requires
        table::lookup(m.caches, user) == Some(c),
    ensures
        ({
            let r = player_record(m, user, id, timestamp);
            &&& r.id == id
            &&& r.time == timestamp
            &&& r.chart == m.chart_id
            &&& r.chart_name == m.chart_name
            &&& r.user == user
            &&& r.user_name == c.user_name
            &&& r.touch_frames == c.touch_frames
            &&& r.judge_events == c.judge_events
        }),
{
}

/// The id of a record is the size of the random number it was made from, whatever its sign.
pub proof fn law_record_id(random: i32)
    ensures
        match id_from(random) {
            Some(n) => n >= 0 && (n == random || n + random == 0),
            None => random == -0x8000_0000,
        },
{
}

/// What is done in one room is recorded in that room alone.
pub proof fn law_rooms_recorded_apart(
    s: Seq<(Seq<char>, RecorderModel)>,
    room: Seq<char>,
    other: Seq<char>,
    user_id: i32,
    name: Seq<char>,
    number: i32,
    frames: Seq<TouchFrameModel>,
    events: Seq<JudgeEvent>,
    recording: bool,
)
    requires
        other != room,
    ensures
        table::lookup(created(s, room, number, name), other) == table::lookup(s, other),
        table::lookup(player_came(s, room, user_id, name), other) == table::lookup(s, other),
        table::lookup(touched(s, room, user_id, frames), other) == table::lookup(s, other),
        table::lookup(judged(s, room, user_id, events), other) == table::lookup(s, other),
        table::lookup(recording_set(s, room, recording), other) == table::lookup(s, other),
        table::lookup(chart_set(s, room, number, name), other) == table::lookup(s, other),
{
    table::lemma_put_lookup(s, room, new_recorder(room, number, name), other);
    if let Some(m) = table::lookup(s, room) {
        table::lemma_put_lookup(s, room, with_player(m, user_id, name), other);
        table::lemma_put_lookup(s, room, with_frames(m, user_id, frames), other);
        table::lemma_put_lookup(s, room, with_events(m, user_id, events), other);
        table::lemma_put_lookup(s, room, RecorderModel { recording, ..m }, other);
        table::lemma_put_lookup(
            s,
            room,
            RecorderModel { chart_id: number, chart_name: name, ..m },
            other,
        );
    }
}

/// A new recorder has recorded nothing; choosing a chart changes the chart and nothing else, and
/// so does starting or stopping it with whether it records.
pub proof fn law_recorder_settings(
    s: Seq<(Seq<char>, RecorderModel)>,
    room: Seq<char>,
    number: i32,
    name: Seq<char>,
    recording: bool,
)
    ensures
        table::lookup(created(s, room, number, name), room) matches Some(m) && m.room_id == room
            && m.chart_id == number && m.chart_name == name && m.caches.len() == 0
            && !m.recording,
        table::lookup(s, room) matches Some(m) ==> {
            &&& table::lookup(chart_set(s, room, number, name), room) matches Some(n) && n.chart_id
                == number && n.chart_name == name && n.caches == m.caches && n.recording
                == m.recording && n.room_id == m.room_id
            &&& table::lookup(recording_set(s, room, recording), room) matches Some(n)
                && n.recording == recording && n.caches == m.caches && n.chart_id == m.chart_id
                && n.chart_name == m.chart_name && n.room_id == m.room_id
        },
{
    table::lemma_put_lookup(s, room, new_recorder(room, number, name), room);
    if let Some(m) = table::lookup(s, room) {
        table::lemma_put_lookup(s, room, RecorderModel { recording, ..m }, room);
        table::lemma_put_lookup(
            s,
            room,
            RecorderModel { chart_id: number, chart_name: name, ..m },
            room,
        );
    }
}

/// Where a finger is kept: within the unit interval it stays, beyond one it is at one, below
/// nothing it is at nothing, and what is no number stays none.
pub proof fn law_unit(b: u16)
    ensures
        b <= 0x3c00 ==> unit_half(b) == b,
        0x3c00 < b <= 0x7c00 ==> unit_half(b) == 0x3c00,
        b == 0x8000 ==> unit_half(b) == b,
        0x8000 < b <= 0xfc00 ==> unit_half(b) == 0,
        0x7c00 < b < 0x8000 ==> unit_half(b) == b || unit_half(b) == b + 0x200,
        b > 0xfc00 ==> unit_half(b) == b || unit_half(b) == b + 0x200,
        0x7c00 < b < 0x8000 || b > 0xfc00 ==> unit_half(b) / 0x200 % 2 == 1,
{
}

/// Two texts with a separator after each can be told apart where the separator is in neither.
proof fn lemma_parts(a: Seq<char>, x: Seq<char>, b: Seq<char>, y: Seq<char>, c: char)
    requires
        a + seq![c] + x == b + seq![c] + y,
        forall|i: int| 0 <= i < a.len() ==> #[trigger] a[i] != c,
        forall|i: int| 0 <= i < b.len() ==> #[trigger] b[i] != c,
    ensures
        a == b,
        x == y,
{
    let s = a + seq![c] + x;
    let t = b + seq![c] + y;
    assert(s[a.len() as int] == c);
    assert(t[b.len() as int] == c);
    if a.len() < b.len() {
        assert(t[a.len() as int] == b[a.len() as int]);
    }
    if b.len() < a.len() {
        assert(s[b.len() as int] == a[b.len() as int]);
    }
    assert(s.take(a.len() as int) =~= a);
    assert(t.take(b.len() as int) =~= b);
    assert(s.skip(a.len() as int + 1) =~= x);
    assert(t.skip(b.len() as int + 1) =~= y);
}

/// Records of different players, charts or moments are kept in different places.
pub proof fn law_paths_apart(u: i32, c: i32, t: u64, v: i32, d: i32, w: u64)
    ensures
        record_path(u, c, t) == record_path(v, d, w) <==> u == v && c == d && t == w,
{
    if record_path(u, c, t) == record_path(v, d, w) {
        reveal_strlit("record/");
        reveal_strlit("/");
        reveal_strlit(".phirarec");
        let a = record_path(u, c, t).skip(7);
        let b = record_path(v, d, w).skip(7);
        let (u1, c1, t1) = (text::dec(u as int), text::dec(c as int), text::dec(t as int));
        let (v1, d1, w1) = (text::dec(v as int), text::dec(d as int), text::dec(w as int));
        text::law_number_shape(u as int);
        text::law_number_shape(v as int);
        text::law_number_shape(c as int);
        text::law_number_shape(d as int);
        let e = ".phirarec"@;
        assert(a =~= u1 + seq!['/'] + (c1 + seq!['/'] + (t1 + e)));
        assert(b =~= v1 + seq!['/'] + (d1 + seq!['/'] + (w1 + e)));
        lemma_parts(
            u1,
            c1 + seq!['/'] + (t1 + e),
            v1,
            d1 + seq!['/'] + (w1 + e),
            '/',
        );
        lemma_parts(c1, t1 + e, d1, w1 + e, '/');
        assert((t1 + e).take((t1 + e).len() - 9) =~= t1);
        assert((w1 + e).take((w1 + e).len() - 9) =~= w1);
        text::law_numbers_apart(u as int, v as int);
        text::law_numbers_apart(c as int, d as int);
        text::law_numbers_apart(t as int, w as int);
    }
}

/// Uploads that were answered are as many as there are answers, and the good ones among them are
/// those that say so.
pub proof fn law_uploads_counted(results: Seq<Option<UploadResponse>>, r: Option<UploadResponse>)
    ensures
        upload_counts(Seq::empty()) == (0nat, 0nat),
        ({
            let (a, g) = upload_counts(results);
            let (b, h) = upload_counts(results.push(r));
            &&& b == a + (if r is Some {
                1nat
            } else {
                0nat
            })
            &&& h == g + (if r matches Some(x) && x.success {
                1nat
            } else {
                0nat
            })
        }),
{
    assert(results.push(r).drop_last() =~= results);
}

/// A record file: eight letters, the version, the kind of compression, and the compressed record
/// to the end. There is none if nothing was compressed, or if it would be too large.
pub proof fn law_record_file(c: Seq<u8>)
    ensures
        record_file(c).len() == c.len() + 13,
        record_file(c)[0] as char == 'P',
        record_file(c)[1] as char == 'H',
        record_file(c)[2] as char == 'I',
        record_file(c)[3] as char == 'R',
        record_file(c)[4] as char == 'A',
        record_file(c)[5] as char == 'R',
        record_file(c)[6] as char == 'E',
        record_file(c)[7] as char == 'C',
        record_file(c)[8] == 1,
        record_file(c)[9] == 0,
        record_file(c)[10] == 0,
        record_file(c)[11] == 0,
        record_file(c)[12] == 1,
        record_file(c).skip(13) == c,
        finished(None) == Err::<Seq<u8>, EncodeError>(EncodeError::Compress),
        c.len() + 13 <= isize::MAX ==> finished(Some(c)) == Ok::<Seq<u8>, EncodeError>(
            record_file(c),
        ),
        c.len() + 13 > isize::MAX ==> finished(Some(c)) == Err::<Seq<u8>, EncodeError>(
            EncodeError::TooLarge,
        ),
{
    bin::lemma_le_bytes_four(bin::unsigned32(PHIRAREC_VERSION) as nat);
    assert(record_file(c).skip(13) =~= c);
}

/// A form that uploads a record: the file between two boundaries, then the names that are given,
/// each under what it is, and the end.
pub proof fn law_form(
    b: Seq<char>,
    file: Seq<u8>,
    chart: Seq<char>,
    user: Seq<char>,
    c: Option<Seq<char>>,
    u: Option<Seq<char>>,
)
    ensures
        form_body(b, file, c, u) == encode_utf8(form_head(b)) + file + encode_utf8(
            form_tail(b, c, u),
        ),
        form_head(b) == "--"@ + b + "\r\n"@
            + "Content-Disposition: form-data; name=\"file\"; filename=\"replay.phirarec\"\r\n"@
            + "Content-Type: application/octet-stream\r\n\r\n"@,
        form_tail(b, None, None) == "\r\n"@ + ("--"@ + b + "--\r\n"@),
        form_tail(b, Some(chart), None) == "\r\n"@ + ("--"@ + b + "\r\n"@
            + "Content-Disposition: form-data; name=\""@ + "chart_name"@ + "\"\r\n\r\n"@ + chart
            + "\r\n"@) + ("--"@ + b + "--\r\n"@),
        form_tail(b, None, Some(user)) == "\r\n"@ + ("--"@ + b + "\r\n"@
            + "Content-Disposition: form-data; name=\""@ + "username"@ + "\"\r\n\r\n"@ + user
            + "\r\n"@) + ("--"@ + b + "--\r\n"@),
        form_tail(b, Some(chart), Some(user)) == "\r\n"@ + ("--"@ + b + "\r\n"@
            + "Content-Disposition: form-data; name=\""@ + "chart_name"@ + "\"\r\n\r\n"@ + chart
            + "\r\n"@) + ("--"@ + b + "\r\n"@ + "Content-Disposition: form-data; name=\""@
            + "username"@ + "\"\r\n\r\n"@ + user + "\r\n"@) + ("--"@ + b + "--\r\n"@),
{
    let e = Seq::<char>::empty();
    let x = "\r\n"@;
    assert(x + e =~= x);
    assert(x + e + e =~= x);
    assert(x + form_field(b, "chart_name"@, chart) + e =~= x + form_field(b, "chart_name"@, chart));
}

/// Boundaries of forms are dashes, a word and a number, and two of them are the same only if their
/// numbers are.
pub proof fn law_boundaries_apart(a: u64, b: u64)
    ensures
        boundary_of(a) == boundary_of(b) <==> a == b,
        boundary_of(a).take("----WebKitFormBoundary"@.len() as int) == "----WebKitFormBoundary"@,
        boundary_of(a).skip("----WebKitFormBoundary"@.len() as int) == text::dec(a as int),
{
    let w = "----WebKitFormBoundary"@;
    assert(boundary_of(a).take(w.len() as int) =~= w);
    assert(boundary_of(a).skip(w.len() as int) =~= text::dec(a as int));
    assert(boundary_of(b).skip(w.len() as int) =~= text::dec(b as int));
    text::law_numbers_apart(a as int, b as int);
}

/// The number of a record is never negative, and it is the number that chance gave, but for its
/// sign.
pub proof fn law_record_number(random: i32, id: i32)
    requires
        random != i32::MIN,
        call_ensures(record_id, (random,), id),
    ensures
        id >= 0,
        id == random || id == -random,
{
}

} // verus!
