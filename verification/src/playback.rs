//! How a record file is read back, and that it gives back what was recorded.
use crate::bin;
use crate::replay;
use crate::replay::{
    JudgementType, RecordModel, ReplayJudgeEvent, ReplayTouchFrameModel, ReplayTouchPoint,
};
use vstd::prelude::*;
use vstd::utf8::*;

verus! {

/// Whether a number fits into so many bytes.
pub open spec fn fits(v: nat, n: nat) -> bool
    decreases n,
{
    if n == 0 {
        v == 0
    } else {
        fits(v / 256, (n - 1) as nat)
    }
}

/// The number in the first `n` bytes, and what comes after it.
pub open spec fn number(b: Seq<u8>, n: nat) -> Option<(nat, Seq<u8>)> {
    if b.len() < n {
        None
    } else {
        Some((bin::le_value(b.take(n as int)), b.skip(n as int)))
    }
}

/// A length, and what comes after it.
pub open spec fn length(b: Seq<u8>) -> Option<(nat, Seq<u8>)> {
    match bin::uleb_scan(b, 5) {
        Ok((v, n)) => Some((v, b.skip(n))),
        Err(_) => None,
    }
}

/// A text, and what comes after it.
pub open spec fn text(b: Seq<u8>) -> Option<(Seq<char>, Seq<u8>)> {
    match length(b) {
        Some((n, rest)) => if rest.len() < n {
            None
        } else {
            Some((decode_utf8(rest.take(n as int)), rest.skip(n as int)))
        },
        None => None,
    }
}

/// A finger, and what comes after it.
pub open spec fn point(b: Seq<u8>) -> Option<(ReplayTouchPoint, Seq<u8>)> {
    match number(b, 1) {
        Some((id, b1)) => match number(b1, 2) {
            Some((x, b2)) => match number(b2, 2) {
                Some((y, b3)) => Some(
                    (ReplayTouchPoint { id: id as u8, x: x as u16, y: y as u16 }, b3),
                ),
                None => None,
            },
            None => None,
        },
        None => None,
    }
}

/// So many fingers, and what comes after them.
pub open spec fn points(b: Seq<u8>, n: nat) -> Option<(Seq<ReplayTouchPoint>, Seq<u8>)>
    decreases n,
{
    if n == 0 {
        Some((Seq::empty(), b))
    } else {
        match point(b) {
            Some((p, rest)) => match points(rest, (n - 1) as nat) {
                Some((s, end)) => Some((seq![p] + s, end)),
                None => None,
            },
            None => None,
        }
    }
}

/// A touch frame, and what comes after it.
pub open spec fn frame(b: Seq<u8>) -> Option<(ReplayTouchFrameModel, Seq<u8>)> {
    match number(b, 4) {
        Some((time, b1)) => match length(b1) {
            Some((n, b2)) => match points(b2, n) {
                Some((s, b3)) => Some(
                    (ReplayTouchFrameModel { time: time as u32, points: s }, b3),
                ),
                None => None,
            },
            None => None,
        },
        None => None,
    }
}

/// So many touch frames, and what comes after them.
pub open spec fn frames(b: Seq<u8>, n: nat) -> Option<(Seq<ReplayTouchFrameModel>, Seq<u8>)>
    decreases n,
{
    if n == 0 {
        Some((Seq::empty(), b))
    } else {
        match frame(b) {
            Some((f, rest)) => match frames(rest, (n - 1) as nat) {
                Some((s, end)) => Some((seq![f] + s, end)),
                None => None,
            },
            None => None,
        }
    }
}

/// The judgement of a number.
pub open spec fn judgement(n: nat) -> Option<JudgementType> {
    if n == 0 {
        Some(JudgementType::Perfect)
    } else if n == 1 {
        Some(JudgementType::Good)
    } else if n == 2 {
        Some(JudgementType::Bad)
    } else if n == 3 {
        Some(JudgementType::Miss)
    } else if n == 4 {
        Some(JudgementType::HoldPerfect)
    } else if n == 5 {
        Some(JudgementType::HoldGood)
    } else {
        None
    }
}

/// A judgement of a note, and what comes after it.
pub open spec fn event(b: Seq<u8>) -> Option<(ReplayJudgeEvent, Seq<u8>)> {
    match number(b, 4) {
        Some((time, b1)) => match number(b1, 4) {
            Some((line, b2)) => match number(b2, 4) {
                Some((note, b3)) => match number(b3, 1) {
                    Some((j, b4)) => match judgement(j) {
                        Some(judgement) => Some(
                            (
                                ReplayJudgeEvent {
                                    time: time as u32,
                                    line_id: bin::signed32(line as u32),
                                    note_id: bin::signed32(note as u32),
                                    judgement,
                                },
                                b4,
                            ),
                        ),
                        None => None,
                    },
                    None => None,
                },
                None => None,
            },
            None => None,
        },
        None => None,
    }
}

/// So many judgements of notes, and what comes after them.
pub open spec fn events(b: Seq<u8>, n: nat) -> Option<(Seq<ReplayJudgeEvent>, Seq<u8>)>
    decreases n,
{
    if n == 0 {
        Some((Seq::empty(), b))
    } else {
        match event(b) {
            Some((e, rest)) => match events(rest, (n - 1) as nat) {
                Some((s, end)) => Some((seq![e] + s, end)),
                None => None,
            },
            None => None,
        }
    }
}

/// The touch frames and the judgements at the end of a payload.
pub open spec fn doings(b: Seq<u8>) -> Option<
    (Seq<ReplayTouchFrameModel>, Seq<ReplayJudgeEvent>),
> {
    match length(b) {
        Some((n, b1)) => match frames(b1, n) {
            Some((fs, b2)) => match length(b2) {
                Some((m, b3)) => match events(b3, m) {
                    Some((es, end)) => if end.len() == 0 {
                        Some((fs, es))
                    } else {
                        None
                    },
                    None => None,
                },
                None => None,
            },
            None => None,
        },
        None => None,
    }
}

/// The user of a payload: number and name, and what comes after them.
pub open spec fn player(b: Seq<u8>) -> Option<(i32, Seq<char>, Seq<u8>)> {
    match number(b, 4) {
        Some((user, b1)) => match text(b1) {
            Some((name, b2)) => Some((bin::signed32(user as u32), name, b2)),
            None => None,
        },
        None => None,
    }
}

/// The record that a payload holds.
pub open spec fn read(b: Seq<u8>) -> Option<RecordModel> {
    match number(b, 4) {
        Some((id, b1)) => match number(b1, 8) {
            Some((time, b2)) => match player(b2) {
                Some((chart, chart_name, b3)) => match player(b3) {
                    Some((user, user_name, b4)) => match doings(b4) {
                        Some((touch_frames, judge_events)) => Some(
                            RecordModel {
                                id: bin::signed32(id as u32),
                                time: time as u64,
                                chart,
                                chart_name,
                                user,
                                user_name,
                                touch_frames,
                                judge_events,
                            },
                        ),
                        None => None,
                    },
                    None => None,
                },
                None => None,
            },
            None => None,
        },
        None => None,
    }
}

/// A finger within the unit square.
pub open spec fn inside(p: ReplayTouchPoint) -> ReplayTouchPoint {
    ReplayTouchPoint { id: p.id, x: replay::unit_half(p.x), y: replay::unit_half(p.y) }
}

/// Fingers within the unit square.
pub open spec fn all_inside(s: Seq<ReplayTouchPoint>) -> Seq<ReplayTouchPoint> {
    Seq::new(s.len(), |i: int| inside(s[i]))
}

/// Touch frames with every finger within the unit square.
pub open spec fn frames_inside(s: Seq<ReplayTouchFrameModel>) -> Seq<ReplayTouchFrameModel> {
    Seq::new(
        s.len(),
        |i: int| ReplayTouchFrameModel { time: s[i].time, points: all_inside(s[i].points) },
    )
}

/// The largest length in a record.
pub open spec fn max_length() -> nat {
    0xffff_ffff
}

/// Whether no length in a record is too large.
pub open spec fn lengths_fit(r: RecordModel) -> bool {
    &&& encode_utf8(r.chart_name).len() <= max_length()
    &&& encode_utf8(r.user_name).len() <= max_length()
    &&& r.touch_frames.len() <= max_length()
    &&& r.judge_events.len() <= max_length()
    &&& forall|i: int|
        0 <= i < r.touch_frames.len() ==> (#[trigger] r.touch_frames[i]).points.len()
            <= max_length()
}

/// The bytes of a number that fits are read back.
proof fn lemma_number(v: nat, n: nat, rest: Seq<u8>)
    requires
        fits(v, n),
    ensures
        bin::le_bytes(v, n).len() == n,
        number(bin::le_bytes(v, n) + rest, n) == Some((v, rest)),
    decreases n,
{
    let b = bin::le_bytes(v, n);
    lemma_le(v, n);
    assert((b + rest).take(n as int) =~= b);
    assert((b + rest).skip(n as int) =~= rest);
}

/// The bytes of a number that fits stand for it.
proof fn lemma_le(v: nat, n: nat)
    requires
        fits(v, n),
    ensures
        bin::le_bytes(v, n).len() == n,
        bin::le_value(bin::le_bytes(v, n)) == v,
    decreases n,
{
    if n > 0 {
        lemma_le(v / 256, (n - 1) as nat);
        let b = bin::le_bytes(v, n);
        assert(b.skip(1) =~= bin::le_bytes(v / 256, (n - 1) as nat));
    }
}

/// Numbers of some bits fit into the bytes for them.
proof fn lemma_fits(v: nat)
    ensures
        v < 0x100 ==> fits(v, 1),
        v < 0x1_0000 ==> fits(v, 2),
        v < 0x1_0000_0000 ==> fits(v, 4),
        v < 0x1_0000_0000_0000_0000 ==> fits(v, 8),
{
    reveal_with_fuel(fits, 9);
}

/// A length that fits is read back.
proof fn lemma_length(n: nat, rest: Seq<u8>)
    requires
        n <= max_length(),
    ensures
        length(replay::varint32(n) + rest) == Some((n, rest)),
{
    bin::lemma_pow128_limits();
    bin::lemma_uleb_round_trip(n, 5, rest);
    assert(n % 0x1_0000_0000 == n);
    let h = replay::varint32(n);
    assert((h + rest).skip(h.len() as int) =~= rest);
}

/// A text is read back.
proof fn lemma_text(s: Seq<char>, rest: Seq<u8>)
    requires
        encode_utf8(s).len() <= max_length(),
    ensures
        text(replay::record_text(s) + rest) == Some((s, rest)),
{
    let b = encode_utf8(s);
    assert(replay::record_text(s) + rest =~= replay::varint32(b.len()) + (b + rest));
    lemma_length(b.len(), b + rest);
    assert((b + rest).take(b.len() as int) =~= b);
    assert((b + rest).skip(b.len() as int) =~= rest);
    encode_utf8_decode_utf8(s);
}

/// A finger is read back, within the unit square.
proof fn lemma_point(p: ReplayTouchPoint, rest: Seq<u8>)
    ensures
        point(replay::point_bytes(p) + rest) == Some((inside(p), rest)),
{
    let x = replay::unit_half(p.x) as nat;
    let y = replay::unit_half(p.y) as nat;
    let bx = bin::le_bytes(x, 2);
    let by = bin::le_bytes(y, 2);
    lemma_fits(p.id as nat);
    lemma_fits(x);
    lemma_fits(y);
    reveal_with_fuel(bin::le_bytes, 2);
    assert(bin::le_bytes(p.id as nat, 1) =~= seq![p.id]);
    assert(replay::point_bytes(p) + rest =~= bin::le_bytes(p.id as nat, 1) + (bx + (by + rest)));
    lemma_number(p.id as nat, 1, bx + (by + rest));
    lemma_number(x, 2, by + rest);
    lemma_number(y, 2, rest);
}

/// Fingers are read back.
proof fn lemma_points(s: Seq<ReplayTouchPoint>, rest: Seq<u8>)
    ensures
        points(replay::points_bytes(s) + rest, s.len()) == Some((all_inside(s), rest)),
    decreases s.len(),
{
    if s.len() == 0 {
        assert(replay::points_bytes(s) + rest =~= rest);
        assert(all_inside(s) =~= Seq::empty());
    } else {
        let tail = replay::points_bytes(s.skip(1));
        assert(replay::points_bytes(s) + rest =~= replay::point_bytes(s[0]) + (tail + rest));
        lemma_point(s[0], tail + rest);
        lemma_points(s.skip(1), rest);
        assert(seq![inside(s[0])] + all_inside(s.skip(1)) =~= all_inside(s));
    }
}

/// A touch frame is read back.
proof fn lemma_frame(f: ReplayTouchFrameModel, rest: Seq<u8>)
    requires
        f.points.len() <= max_length(),
    ensures
        frame(replay::frame_bytes(f) + rest) == Some(
            (ReplayTouchFrameModel { time: f.time, points: all_inside(f.points) }, rest),
        ),
{
    let t = bin::le_bytes(f.time as nat, 4);
    let n = replay::varint32(f.points.len());
    let p = replay::points_bytes(f.points);
    assert(replay::frame_bytes(f) + rest =~= t + (n + (p + rest)));
    lemma_fits(f.time as nat);
    lemma_number(f.time as nat, 4, n + (p + rest));
    lemma_length(f.points.len(), p + rest);
    lemma_points(f.points, rest);
}

/// Touch frames are read back.
proof fn lemma_frames(s: Seq<ReplayTouchFrameModel>, rest: Seq<u8>)
    requires
        forall|i: int| 0 <= i < s.len() ==> (#[trigger] s[i]).points.len() <= max_length(),
    ensures
        frames(replay::frames_bytes(s) + rest, s.len()) == Some((frames_inside(s), rest)),
    decreases s.len(),
{
    if s.len() == 0 {
        assert(replay::frames_bytes(s) + rest =~= rest);
        assert(frames_inside(s) =~= Seq::empty());
    } else {
        let tail = replay::frames_bytes(s.skip(1));
        assert(replay::frames_bytes(s) + rest =~= replay::frame_bytes(s[0]) + (tail + rest));
        lemma_frame(s[0], tail + rest);
        assert forall|i: int| 0 <= i < s.skip(1).len() implies (#[trigger] s.skip(
            1,
        )[i]).points.len() <= max_length() by {
            assert(s.skip(1)[i] == s[i + 1]);
        }
        lemma_frames(s.skip(1), rest);
        let f = ReplayTouchFrameModel { time: s[0].time, points: all_inside(s[0].points) };
        assert(seq![f] + frames_inside(s.skip(1)) =~= frames_inside(s));
    }
}

/// A signed number comes back from its bits.
proof fn lemma_signed(v: i32)
    ensures
        bin::signed32(bin::unsigned32(v)) == v,
        bin::unsigned32(v) < 0x1_0000_0000,
{
}

/// A judgement of a note is read back.
proof fn lemma_event(e: ReplayJudgeEvent, rest: Seq<u8>)
    ensures
        event(replay::event_bytes(e) + rest) == Some((e, rest)),
{
    let t = bin::le_bytes(e.time as nat, 4);
    let l = bin::le_bytes(bin::unsigned32(e.line_id) as nat, 4);
    let n = bin::le_bytes(bin::unsigned32(e.note_id) as nat, 4);
    let k = e.judgement.number();
    let j = bin::le_bytes(k as nat, 1);
    reveal_with_fuel(bin::le_bytes, 2);
    assert(j =~= seq![k]);
    assert(replay::event_bytes(e) + rest =~= t + (l + (n + (j + rest))));
    lemma_fits(e.time as nat);
    lemma_fits(bin::unsigned32(e.line_id) as nat);
    lemma_fits(bin::unsigned32(e.note_id) as nat);
    lemma_fits(k as nat);
    lemma_number(e.time as nat, 4, l + (n + (j + rest)));
    lemma_number(bin::unsigned32(e.line_id) as nat, 4, n + (j + rest));
    lemma_number(bin::unsigned32(e.note_id) as nat, 4, j + rest);
    lemma_number(k as nat, 1, rest);
    lemma_signed(e.line_id);
    lemma_signed(e.note_id);
}

/// Judgements of notes are read back.
proof fn lemma_events(s: Seq<ReplayJudgeEvent>, rest: Seq<u8>)
    ensures
        events(replay::events_bytes(s) + rest, s.len()) == Some((s, rest)),
    decreases s.len(),
{
    if s.len() == 0 {
        assert(replay::events_bytes(s) + rest =~= rest);
        assert(s =~= Seq::empty());
    } else {
        let tail = replay::events_bytes(s.skip(1));
        assert(replay::events_bytes(s) + rest =~= replay::event_bytes(s[0]) + (tail + rest));
        lemma_event(s[0], tail + rest);
        lemma_events(s.skip(1), rest);
        assert(seq![s[0]] + s.skip(1) =~= s);
    }
}

/// A number and a name are read back.
proof fn lemma_player(id: i32, name: Seq<char>, rest: Seq<u8>)
    requires
        encode_utf8(name).len() <= max_length(),
    ensures
        player(
            bin::le_bytes(bin::unsigned32(id) as nat, 4) + (replay::record_text(name) + rest),
        ) == Some((id, name, rest)),
{
    lemma_signed(id);
    lemma_fits(bin::unsigned32(id) as nat);
    lemma_number(bin::unsigned32(id) as nat, 4, replay::record_text(name) + rest);
    lemma_text(name, rest);
}

/// How bytes are put together does not matter.
proof fn lemma_assoc(a: Seq<u8>, b: Seq<u8>, c: Seq<u8>)
    ensures
        (a + b) + c == a + (b + c),
{
    assert((a + b) + c =~= a + (b + c));
}

/// Touch frames and judgements are read back.
proof fn lemma_doings(fs: Seq<ReplayTouchFrameModel>, es: Seq<ReplayJudgeEvent>)
    requires
        fs.len() <= max_length(),
        es.len() <= max_length(),
        forall|i: int| 0 <= i < fs.len() ==> (#[trigger] fs[i]).points.len() <= max_length(),
    ensures
        doings(
            (replay::varint32(fs.len()) + replay::frames_bytes(fs)) + (replay::varint32(es.len())
                + replay::events_bytes(es)),
        ) == Some((frames_inside(fs), es)),
{
    let n = replay::varint32(fs.len());
    let f = replay::frames_bytes(fs);
    let m = replay::varint32(es.len());
    let e = replay::events_bytes(es);
    let none = Seq::<u8>::empty();
    assert(e + none =~= e);
    lemma_assoc(n, f, m + e);
    lemma_length(fs.len(), f + (m + e));
    lemma_frames(fs, m + e);
    lemma_length(es.len(), e);
    lemma_events(es, none);
}

/// The payload of a record gives back the record, with every finger within the unit square.
pub proof fn law_payload_read_back(r: RecordModel)
    requires
        lengths_fit(r),
    ensures
        read(replay::payload(r)) == Some(
            RecordModel { touch_frames: frames_inside(r.touch_frames), ..r },
        ),
{
    let id = bin::le_bytes(bin::unsigned32(r.id) as nat, 4);
    let time = bin::le_bytes(r.time as nat, 8);
    let chart = bin::le_bytes(bin::unsigned32(r.chart) as nat, 4);
    let chart_name = replay::record_text(r.chart_name);
    let user = bin::le_bytes(bin::unsigned32(r.user) as nat, 4);
    let user_name = replay::record_text(r.user_name);
    let fs = replay::varint32(r.touch_frames.len()) + replay::frames_bytes(r.touch_frames);
    let es = replay::varint32(r.judge_events.len()) + replay::events_bytes(r.judge_events);
    let b4 = fs + es;
    let b3 = user + (user_name + b4);
    let b2 = chart + (chart_name + b3);
    assert(replay::payload(r) == id + (time + b2)) by {
        let head = id + time + chart + chart_name + user + user_name;
        lemma_assoc(head, fs, es);
        lemma_assoc(id + time + chart + chart_name + user, user_name, b4);
        lemma_assoc(id + time + chart + chart_name, user, user_name + b4);
        lemma_assoc(id + time + chart, chart_name, b3);
        lemma_assoc(id + time, chart, chart_name + b3);
        lemma_assoc(id, time, b2);
    }
    lemma_signed(r.id);
    lemma_fits(bin::unsigned32(r.id) as nat);
    lemma_fits(r.time as nat);
    lemma_number(bin::unsigned32(r.id) as nat, 4, time + b2);
    lemma_number(r.time as nat, 8, b2);
    lemma_player(r.chart, r.chart_name, b3);
    lemma_player(r.user, r.user_name, b4);
    lemma_doings(r.touch_frames, r.judge_events);
}

/// The parts of a record file are where they should be: the eight bytes of its name, the
/// version, the kind of compression, and then the compressed payload.
pub proof fn law_record_file(compressed: Seq<u8>)
    ensures
        replay::record_file(compressed).take(8) == replay::magic(),
        bin::le_value(replay::record_file(compressed).subrange(8, 12)) == 1,
        replay::record_file(compressed)[12] == 1,
        replay::record_file(compressed).skip(replay::RECORD_HEAD as int) == compressed,
{
    let f = replay::record_file(compressed);
    let v = bin::le_bytes(bin::unsigned32(replay::PHIRAREC_VERSION) as nat, 4);
    lemma_fits(1);
    lemma_le(1, 4);
    assert(f.take(8) =~= replay::magic());
    assert(f.subrange(8, 12) =~= v);
    assert(f.skip(13) =~= compressed);
}

/// The number in the four bytes from a place on, the lowest first.
pub open spec fn word_at(b: Seq<u8>, i: int) -> int {
    b[i] + 0x100 * b[i + 1] + 0x1_0000 * b[i + 2] + 0x100_0000 * b[i + 3]
}

/// The four bytes of a number, wherever they stand.
proof fn lemma_word(b: Seq<u8>, i: int, v: nat)
    requires
        0 <= i,
        i + 4 <= b.len(),
        b.subrange(i, i + 4) == bin::le_bytes(v, 4),
        v < 0x1_0000_0000,
    ensures
        word_at(b, i) == v,
{
    bin::lemma_le_bytes_four(v);
    let w = b.subrange(i, i + 4);
    assert(w[0] == b[i] && w[1] == b[i + 1] && w[2] == b[i + 2] && w[3] == b[i + 3]);
    assert(v == v % 256 + 256 * (v / 256 % 256) + 0x10000 * (v / 0x10000 % 256) + 0x1000000 * (v
        / 0x1000000 % 256));
}

/// How a judgement is written: thirteen bytes, of which four are its moment, four its line, four
/// its note, and the last one what it was.
pub proof fn law_event_layout(e: ReplayJudgeEvent)
    ensures
        ({
            let b = replay::event_bytes(e);
            &&& b.len() == 13
            &&& word_at(b, 0) == e.time
            &&& word_at(b, 4) == e.line_id as int % 0x1_0000_0000
            &&& word_at(b, 8) == e.note_id as int % 0x1_0000_0000
            &&& e.judgement == JudgementType::Perfect ==> b[12] == 0
            &&& e.judgement == JudgementType::Good ==> b[12] == 1
            &&& e.judgement == JudgementType::Bad ==> b[12] == 2
            &&& e.judgement == JudgementType::Miss ==> b[12] == 3
            &&& e.judgement == JudgementType::HoldPerfect ==> b[12] == 4
            &&& e.judgement == JudgementType::HoldGood ==> b[12] == 5
        }),
{
    let b = replay::event_bytes(e);
    let t = bin::le_bytes(e.time as nat, 4);
    let l = bin::le_bytes(bin::unsigned32(e.line_id) as nat, 4);
    let n = bin::le_bytes(bin::unsigned32(e.note_id) as nat, 4);
    bin::lemma_le_bytes_four(e.time as nat);
    bin::lemma_le_bytes_four(bin::unsigned32(e.line_id) as nat);
    bin::lemma_le_bytes_four(bin::unsigned32(e.note_id) as nat);
    assert(b.subrange(0, 4) =~= t);
    assert(b.subrange(4, 8) =~= l);
    assert(b.subrange(8, 12) =~= n);
    lemma_word(b, 0, e.time as nat);
    lemma_word(b, 4, bin::unsigned32(e.line_id) as nat);
    lemma_word(b, 8, bin::unsigned32(e.note_id) as nat);
}

/// How a finger is written: five bytes, of which the first is its number, two are where it is
/// across, and two where it is along.
pub proof fn law_point_layout(p: ReplayTouchPoint)
    requires
        p.x <= 0x3c00,
        p.y <= 0x3c00,
    ensures
        ({
            let b = replay::point_bytes(p);
            &&& b.len() == 5
            &&& b[0] == p.id
            &&& b[1] + 0x100 * b[2] == p.x
            &&& b[3] + 0x100 * b[4] == p.y
        }),
{
    bin::lemma_le_bytes_two(replay::unit_half(p.x) as nat);
    bin::lemma_le_bytes_two(replay::unit_half(p.y) as nat);
}

/// How the touches of a moment are written: four bytes for the moment, and then how many fingers
/// there are and the fingers.
pub proof fn law_frame_layout(f: ReplayTouchFrameModel)
    ensures
        ({
            let b = replay::frame_bytes(f);
            &&& b.len() >= 4
            &&& word_at(b, 0) == f.time
            &&& b.skip(4) == replay::varint32(f.points.len()) + replay::points_bytes(f.points)
        }),
{
    let b = replay::frame_bytes(f);
    bin::lemma_le_bytes_four(f.time as nat);
    assert(b.subrange(0, 4) =~= bin::le_bytes(f.time as nat, 4));
    assert(b.skip(4) =~= replay::varint32(f.points.len()) + replay::points_bytes(f.points));
    lemma_word(b, 0, f.time as nat);
}

/// A text in a record is the number of its bytes, and then its bytes.
pub proof fn law_text_layout(s: Seq<char>)
    requires
        encode_utf8(s).len() < 128,
    ensures
        replay::record_text(s).len() == encode_utf8(s).len() + 1,
        replay::record_text(s)[0] == encode_utf8(s).len(),
        replay::record_text(s).skip(1) == encode_utf8(s),
{
    assert(replay::record_text(s).skip(1) =~= encode_utf8(s));
}

/// The next part of some bytes, and what comes after it.
proof fn lemma_peel(b: Seq<u8>, i: int, a: Seq<u8>, rest: Seq<u8>)
    requires
        0 <= i <= b.len(),
        b.skip(i) == a + rest,
    ensures
        i + a.len() <= b.len(),
        b.subrange(i, i + a.len()) == a,
        b.skip(i + a.len()) == rest,
{
    let c = b.skip(i);
    assert(c.len() == b.len() - i);
    assert(b.subrange(i, i + a.len()) =~= a) by {
        assert forall|k: int| 0 <= k < a.len() implies b.subrange(i, i + a.len())[k] == a[k] by {
            assert(c[k] == a[k]);
        }
    }
    assert(b.skip(i + a.len()) =~= rest) by {
        assert forall|k: int| 0 <= k < rest.len() implies b.skip(i + a.len())[k] == rest[k] by {
            assert(c[k + a.len()] == rest[k]);
        }
    }
}

/// The four bytes of a number stand for it.
proof fn lemma_leading(v: nat)
    requires
        v < 0x1_0000_0000,
    ensures
        bin::le_bytes(v, 4).len() == 4,
        word_at(bin::le_bytes(v, 4), 0) == v,
{
    bin::lemma_le_bytes_four(v);
    let b = bin::le_bytes(v, 4);
    assert(b.subrange(0, 4) =~= b);
    lemma_word(b, 0, v);
}

/// The parts of the payload of a record, one after the other.
proof fn lemma_payload_parts(r: RecordModel, rest: Seq<u8>)
    requires
        rest == (replay::varint32(r.touch_frames.len()) + replay::frames_bytes(r.touch_frames)) + (
        replay::varint32(r.judge_events.len()) + replay::events_bytes(r.judge_events)),
    ensures
        replay::payload(r) == bin::le_bytes(bin::unsigned32(r.id) as nat, 4) + (bin::le_bytes(
            r.time as nat,
            8,
        ) + (bin::le_bytes(bin::unsigned32(r.chart) as nat, 4) + (replay::record_text(r.chart_name)
            + (bin::le_bytes(bin::unsigned32(r.user) as nat, 4) + (replay::record_text(r.user_name)
            + rest))))),
{
    let id = bin::le_bytes(bin::unsigned32(r.id) as nat, 4);
    let time = bin::le_bytes(r.time as nat, 8);
    let chart = bin::le_bytes(bin::unsigned32(r.chart) as nat, 4);
    let chart_name = replay::record_text(r.chart_name);
    let user = bin::le_bytes(bin::unsigned32(r.user) as nat, 4);
    let user_name = replay::record_text(r.user_name);
    let fs = replay::varint32(r.touch_frames.len()) + replay::frames_bytes(r.touch_frames);
    let es = replay::varint32(r.judge_events.len()) + replay::events_bytes(r.judge_events);
    lemma_assoc(id + time + chart + chart_name + user + user_name, fs, es);
    lemma_assoc(id + time + chart + chart_name + user, user_name, rest);
    lemma_assoc(id + time + chart + chart_name, user, user_name + rest);
    lemma_assoc(id + time + chart, chart_name, user + (user_name + rest));
    lemma_assoc(id + time, chart, chart_name + (user + (user_name + rest)));
    lemma_assoc(id, time, chart + (chart_name + (user + (user_name + rest))));
}

/// How a record begins: four bytes for its id, eight for when it was made, four for its chart,
/// and then the name of the chart, four bytes for its player, and the name of the player.
pub proof fn law_payload_layout(r: RecordModel)
    ensures
        ({
            let b = replay::payload(r);
            let n = 16 + replay::record_text(r.chart_name).len() as int;
            let m = n + 4 + replay::record_text(r.user_name).len() as int;
            &&& b.len() >= m
            &&& word_at(b, 0) == r.id as int % 0x1_0000_0000
            &&& bin::le_value(b.subrange(4, 12)) == r.time
            &&& word_at(b, 12) == r.chart as int % 0x1_0000_0000
            &&& b.subrange(16, n) == replay::record_text(r.chart_name)
            &&& word_at(b, n) == r.user as int % 0x1_0000_0000
            &&& b.subrange(n + 4, m) == replay::record_text(r.user_name)
        }),
{
    let id = bin::le_bytes(bin::unsigned32(r.id) as nat, 4);
    let time = bin::le_bytes(r.time as nat, 8);
    let chart = bin::le_bytes(bin::unsigned32(r.chart) as nat, 4);
    let user = bin::le_bytes(bin::unsigned32(r.user) as nat, 4);
    let rest = (replay::varint32(r.touch_frames.len()) + replay::frames_bytes(r.touch_frames)) + (
    replay::varint32(r.judge_events.len()) + replay::events_bytes(r.judge_events));
    assert(time.len() == 8 && bin::le_value(time) == r.time) by {
        lemma_fits(r.time as nat);
        lemma_le(r.time as nat, 8);
    }
    lemma_leading(bin::unsigned32(r.id) as nat);
    lemma_leading(bin::unsigned32(r.chart) as nat);
    lemma_leading(bin::unsigned32(r.user) as nat);
    lemma_payload_parts(r, rest);
    lemma_layout(
        replay::payload(r),
        id,
        time,
        chart,
        replay::record_text(r.chart_name),
        user,
        replay::record_text(r.user_name),
        rest,
    );
}

/// Where the parts of some bytes are.
proof fn lemma_layout(
    b: Seq<u8>,
    id: Seq<u8>,
    time: Seq<u8>,
    chart: Seq<u8>,
    chart_name: Seq<u8>,
    user: Seq<u8>,
    user_name: Seq<u8>,
    rest: Seq<u8>,
)
    requires
        b == id + (time + (chart + (chart_name + (user + (user_name + rest))))),
        id.len() == 4,
        time.len() == 8,
        chart.len() == 4,
        user.len() == 4,
    ensures
        ({
            let n = 16 + chart_name.len() as int;
            let m = n + 4 + user_name.len() as int;
            &&& b.len() >= m
            &&& word_at(b, 0) == word_at(id, 0)
            &&& b.subrange(4, 12) == time
            &&& word_at(b, 12) == word_at(chart, 0)
            &&& b.subrange(16, n) == chart_name
            &&& word_at(b, n) == word_at(user, 0)
            &&& b.subrange(n + 4, m) == user_name
        }),
{
    let n = chart_name.len() as int;
    let b5 = user_name + rest;
    let b4 = user + b5;
    let b3 = chart_name + b4;
    let b2 = chart + b3;
    let b1 = time + b2;
    assert(b.skip(0) =~= b);
    lemma_peel(b, 0, id, b1);
    lemma_peel(b, 4, time, b2);
    lemma_peel(b, 12, chart, b3);
    lemma_peel(b, 16, chart_name, b4);
    lemma_peel(b, 16 + n, user, b5);
    lemma_peel(b, 20 + n, user_name, rest);
    lemma_word_part(b, 0, id);
    lemma_word_part(b, 12, chart);
    lemma_word_part(b, 16 + n, user);
}

/// A number is the same wherever its bytes stand.
proof fn lemma_word_part(b: Seq<u8>, i: int, a: Seq<u8>)
    requires
        0 <= i,
        i + 4 <= b.len(),
        b.subrange(i, i + 4) == a,
    ensures
        word_at(b, i) == word_at(a, 0),
{
    assert(a[0] == b[i] && a[1] == b[i + 1] && a[2] == b[i + 2] && a[3] == b[i + 3]);
}

} // verus!
