//! Running totals of how well the players of a room hit their notes.
use crate::command::{JudgeEvent, Judgement};
use vstd::prelude::*;
use vstd::string::*;

verus! {

/// The totals of one player.
#[derive(Debug, PartialEq, Eq)]
pub struct PlayerJudgementStats {
    pub user_id: i32,
    pub user_name: String,
    pub perfect: u32,
    pub good: u32,
    pub bad: u32,
    pub miss: u32,
    pub hold_perfect: u32,
    pub hold_good: u32,
    pub max_combo: u32,
    pub current_combo: u32,
    pub score: u32,
}

/// What a [`PlayerJudgementStats`] means.
#[verifier::ext_equal]
pub struct StatsModel {
    pub user_id: i32,
    pub user_name: Seq<char>,
    pub perfect: int,
    pub good: int,
    pub bad: int,
    pub miss: int,
    pub hold_perfect: int,
    pub hold_good: int,
    pub max_combo: int,
    pub current_combo: int,
    pub score: int,
}

impl View for PlayerJudgementStats {
    type V = StatsModel;

    open spec fn view(&self) -> StatsModel {
        StatsModel {
            user_id: self.user_id,
            user_name: self.user_name@,
            perfect: self.perfect as int,
            good: self.good as int,
            bad: self.bad as int,
            miss: self.miss as int,
            hold_perfect: self.hold_perfect as int,
            hold_good: self.hold_good as int,
            max_combo: self.max_combo as int,
            current_combo: self.current_combo as int,
            score: self.score as int,
        }
    }
}

/// A player who has hit nothing yet.
pub open spec fn new_stats(user_id: i32, user_name: Seq<char>) -> StatsModel {
    StatsModel {
        user_id,
        user_name,
        perfect: 0,
        good: 0,
        bad: 0,
        miss: 0,
        hold_perfect: 0,
        hold_good: 0,
        max_combo: 0,
        current_combo: 0,
        score: 0,
    }
}

/// The points of a judgement.
pub open spec fn points(j: Judgement) -> int {
    match j {
        Judgement::Perfect | Judgement::HoldPerfect => 100,
        Judgement::Good | Judgement::HoldGood => 50,
        Judgement::Bad => 10,
        Judgement::Miss => 0,
    }
}

/// The combo after a judgement: a hit note adds to it, a bad or missed one ends it, and a
/// held one leaves it.
pub open spec fn combo_after(combo: int, j: Judgement) -> int {
    match j {
        Judgement::Perfect | Judgement::Good => combo + 1,
        Judgement::Bad | Judgement::Miss => 0,
        Judgement::HoldPerfect | Judgement::HoldGood => combo,
    }
}

/// One if two judgements are the same.
pub open spec fn count_if(a: Judgement, b: Judgement) -> int {
    if a == b {
        1
    } else {
        0
    }
}

/// The totals after one more judgement.
pub open spec fn with_judgement(s: StatsModel, j: Judgement) -> StatsModel {
    let combo = combo_after(s.current_combo, j);
    StatsModel {
        perfect: s.perfect + count_if(j, Judgement::Perfect),
        good: s.good + count_if(j, Judgement::Good),
        bad: s.bad + count_if(j, Judgement::Bad),
        miss: s.miss + count_if(j, Judgement::Miss),
        hold_perfect: s.hold_perfect + count_if(j, Judgement::HoldPerfect),
        hold_good: s.hold_good + count_if(j, Judgement::HoldGood),
        current_combo: combo,
        max_combo: if combo > s.max_combo {
            combo
        } else {
            s.max_combo
        },
        score: s.score + points(j),
        ..s
    }
}

/// The totals after more judgements, one after the other.
pub open spec fn with_judgements(s: StatsModel, events: Seq<JudgeEvent>) -> StatsModel
    decreases events.len(),
{
    if events.len() == 0 {
        s
    } else {
        with_judgement(with_judgements(s, events.drop_last()), events.last().judgement)
    }
}

/// Whether every total is one that can be held, and so is the number of judged notes.
pub open spec fn in_range(s: StatsModel) -> bool {
    &&& s.perfect + s.good + s.bad + s.miss <= u32::MAX
    &&& s.hold_perfect <= u32::MAX
    &&& s.hold_good <= u32::MAX
    &&& s.current_combo <= u32::MAX
    &&& s.score <= u32::MAX
}

/// Whether the totals can be held after each of some judgements.
pub open spec fn counts(s: StatsModel, events: Seq<JudgeEvent>) -> bool {
    forall|n: int|
        0 < n <= events.len() ==> in_range(with_judgements(s, #[trigger] events.take(n)))
}

/// Whether `n` more judgements fit into the totals, whatever they are.
pub open spec fn fits(s: StatsModel, n: int) -> bool {
    &&& s.score + 100 * n <= u32::MAX
    &&& s.perfect + s.good + s.bad + s.miss + n <= u32::MAX
    &&& s.hold_perfect + n <= u32::MAX
    &&& s.hold_good + n <= u32::MAX
    &&& s.current_combo + n <= u32::MAX
}

/// Where so many judgements fit whatever they are, the totals can be held after each of
/// them.
pub proof fn law_fits(s: StatsModel, events: Seq<JudgeEvent>)
    requires
        s.current_combo >= 0,
        fits(s, events.len() as int),
    ensures
        counts(s, events),
{
    assert forall|n: int| 0 < n <= events.len() implies in_range(
        with_judgements(s, #[trigger] events.take(n)),
    ) by {
        lemma_fits(s, events.take(n), (events.len() - n) as nat);
    }
}

/// Judgements take no more room than they need at most.
proof fn lemma_fits(s: StatsModel, events: Seq<JudgeEvent>, more: nat)
    requires
        s.current_combo >= 0,
        fits(s, (events.len() + more) as int),
    ensures
        fits(with_judgements(s, events), more as int),
        with_judgements(s, events).current_combo >= 0,
    decreases events.len(),
{
    if events.len() > 0 {
        lemma_fits(s, events.drop_last(), more + 1);
    }
}

/// The totals after some judgements and one more.
pub proof fn lemma_one_more(s: StatsModel, events: Seq<JudgeEvent>, n: int)
    requires
        0 <= n < events.len(),
    ensures
        with_judgements(s, events.take(n + 1)) == with_judgement(
            with_judgements(s, events.take(n)),
            events[n].judgement,
        ),
{
    assert(events.take(n + 1).drop_last() =~= events.take(n));
}

/// The totals of a player are those of the judgements: each is counted once, the score is
/// what they are worth, and no combo is longer than the notes that were hit.
pub proof fn law_totals(user_id: i32, user_name: Seq<char>, events: Seq<JudgeEvent>)
    ensures
        ({
            let t = with_judgements(new_stats(user_id, user_name), events);
            &&& t.user_id == user_id
            &&& t.user_name == user_name
            &&& t.perfect + t.good + t.bad + t.miss + t.hold_perfect + t.hold_good
                == events.len()
            &&& t.score == 100 * (t.perfect + t.hold_perfect) + 50 * (t.good + t.hold_good) + 10
                * t.bad
            &&& 0 <= t.current_combo <= t.max_combo <= t.perfect + t.good
        }),
    decreases events.len(),
{
    if events.len() > 0 {
        law_totals(user_id, user_name, events.drop_last());
    }
}

/// However the notes of a player are hit, the longest combo is at least the one that is
/// running, where it was before.
pub proof fn law_max_combo(s: StatsModel, events: Seq<JudgeEvent>)
    requires
        s.max_combo >= s.current_combo >= 0,
    ensures
        with_judgements(s, events).max_combo >= with_judgements(s, events).current_combo >= 0,
        with_judgements(s, events).max_combo >= s.max_combo,
    decreases events.len(),
{
    if events.len() > 0 {
        law_max_combo(s, events.drop_last());
    }
}

/// The score is what the counted judgements are worth, where it was before.
pub proof fn law_score(s: StatsModel, events: Seq<JudgeEvent>)
    requires
        s.score == 100 * (s.perfect + s.hold_perfect) + 50 * (s.good + s.hold_good) + 10 * s.bad,
    ensures
        ({
            let t = with_judgements(s, events);
            t.score == 100 * (t.perfect + t.hold_perfect) + 50 * (t.good + t.hold_good) + 10
                * t.bad
        }),
    decreases events.len(),
{
    if events.len() > 0 {
        law_score(s, events.drop_last());
    }
}

/// The accuracy of a player as a fraction of one, where a note has been judged: a perfect
/// note counts one, a good one half and a bad one a tenth.
pub open spec fn accuracy(s: StatsModel) -> Option<(int, int)> {
    let total = s.perfect + s.good + s.bad + s.miss;
    if total > 0 {
        Some((100 * s.perfect + 50 * s.good + 10 * s.bad, 100 * total))
    } else {
        None
    }
}

/// An accuracy is between nothing and one.
pub proof fn law_accuracy(s: StatsModel)
    requires
        s.perfect >= 0,
        s.good >= 0,
        s.bad >= 0,
        s.miss >= 0,
    ensures
        accuracy(s) matches Some((n, d)) ==> 0 <= n <= d && d > 0,
{
}

impl PlayerJudgementStats {
    /// A player who has hit nothing yet.
    pub fn new(user_id: i32, user_name: String) -> (res: PlayerJudgementStats)
        ensures
            res@ == new_stats(user_id, user_name@),
    {
        PlayerJudgementStats {
            user_id,
            user_name,
            perfect: 0,
            good: 0,
            bad: 0,
            miss: 0,
            hold_perfect: 0,
            hold_good: 0,
            max_combo: 0,
            current_combo: 0,
            score: 0,
        }
    }

    /// A copy.
    pub fn duplicate(&self) -> (res: PlayerJudgementStats)
        ensures
            res@ == self@,
    {
        PlayerJudgementStats {
            user_id: self.user_id,
            user_name: self.user_name.clone(),
            perfect: self.perfect,
            good: self.good,
            bad: self.bad,
            miss: self.miss,
            hold_perfect: self.hold_perfect,
            hold_good: self.hold_good,
            max_combo: self.max_combo,
            current_combo: self.current_combo,
            score: self.score,
        }
    }

    /// Whether `n` more judgements fit into the totals, whatever they are.
    pub fn has_room(&self, n: usize) -> (res: bool)
        ensures
            res == fits(self@, n as int),
    {
        let n: i128 = n as i128;
        let max: i128 = 0xffff_ffff;
        self.score as i128 + 100 * n <= max && self.perfect as i128 + self.good as i128
            + self.bad as i128 + self.miss as i128 + n <= max && self.hold_perfect as i128 + n
            <= max && self.hold_good as i128 + n <= max && self.current_combo as i128 + n <= max
    }

    /// Whether the totals can be held after a judgement.
    pub fn can_count(&self, judgement: &Judgement) -> (res: bool)
        ensures
            res == in_range(with_judgement(self@, *judgement)),
    {
        let max: u64 = 0xffff_ffff;
        let notes: u64 = self.perfect as u64 + self.good as u64 + self.bad as u64
            + self.miss as u64;
        let score: u64 = self.score as u64;
        let combo: u64 = self.current_combo as u64;
        match judgement {
            Judgement::Perfect => notes + 1 <= max && combo + 1 <= max && score + 100 <= max,
            Judgement::Good => notes + 1 <= max && combo + 1 <= max && score + 50 <= max,
            Judgement::Bad => notes + 1 <= max && score + 10 <= max,
            Judgement::Miss => notes + 1 <= max,
            Judgement::HoldPerfect => notes <= max && self.hold_perfect as u64 + 1 <= max && score
                + 100 <= max,
            Judgement::HoldGood => notes <= max && self.hold_good as u64 + 1 <= max && score + 50
                <= max,
        }
    }

    /// Whether the totals can be held after each of some judgements.
    pub fn can_count_all(&self, events: &Vec<JudgeEvent>) -> (res: bool)
        ensures
            res == counts(self@, events@),
    {
        if self.has_room(events.len()) {
            proof {
                law_fits(self@, events@);
            }
            return true;
        }
        let mut totals: PlayerJudgementStats = self.duplicate();
        let mut i: usize = 0;
        assert(events@.take(0) =~= Seq::empty());
        while i < events.len()
            invariant
                i <= events.len(),
                totals@ == with_judgements(self@, events@.take(i as int)),
                forall|n: int|
                    0 < n <= i ==> in_range(with_judgements(self@, #[trigger] events@.take(n))),
            decreases events.len() - i,
        {
            proof {
                lemma_one_more(self@, events@, i as int);
            }
            if !totals.can_count(&events[i].judgement) {
                assert(!in_range(with_judgements(self@, events@.take(i + 1))));
                return false;
            }
            totals.add_judgement(&events[i].judgement);
            i += 1;
        }
        true
    }

    /// Counts a judgement.
    pub fn add_judgement(&mut self, judgement: &Judgement)
        requires
            in_range(with_judgement(old(self)@, *judgement)),
        ensures
            final(self)@ == with_judgement(old(self)@, *judgement),
    {
        match judgement {
            Judgement::Perfect => {
                self.perfect += 1;
                self.current_combo += 1;
                self.score += 100;
            },
            Judgement::Good => {
                self.good += 1;
                self.current_combo += 1;
                self.score += 50;
            },
            Judgement::Bad => {
                self.bad += 1;
                self.current_combo = 0;
                self.score += 10;
            },
            Judgement::Miss => {
                self.miss += 1;
                self.current_combo = 0;
            },
            Judgement::HoldPerfect => {
                self.hold_perfect += 1;
                self.score += 100;
            },
            Judgement::HoldGood => {
                self.hold_good += 1;
                self.score += 50;
            },
        }
        if self.current_combo > self.max_combo {
            self.max_combo = self.current_combo;
        }
    }

    /// The accuracy as a fraction of one: what was earned, and what could have been.
    pub fn accuracy_ratio(&self) -> (res: Option<(u64, u64)>)
        ensures
            match accuracy(self@) {
                Some((n, d)) => res matches Some((a, b)) && a == n && b == d,
                None => res is None,
            },
    {
        let total: u64 = self.perfect as u64 + self.good as u64 + self.bad as u64
            + self.miss as u64;
        if total > 0 {
            Some(
                (
                    100 * (self.perfect as u64) + 50 * (self.good as u64) + 10 * (self.bad as u64),
                    100 * total,
                ),
            )
        } else {
            None
        }
    }
}

/// The name of a judgement.
pub open spec fn judgement_name(j: Judgement) -> Seq<char> {
    match j {
        Judgement::Perfect => "Perfect"@,
        Judgement::Good => "Good"@,
        Judgement::Bad => "Bad"@,
        Judgement::Miss => "Miss"@,
        Judgement::HoldPerfect => "HoldPerfect"@,
        Judgement::HoldGood => "HoldGood"@,
    }
}

/// A judgement with the player it belongs to.
#[derive(Debug, PartialEq, Eq)]
pub struct JudgeEventWrapper {
    pub user_id: i32,
    pub user_name: String,
    /// The moment, as the bits of a 32-bit float.
    pub time: u32,
    pub line_id: i32,
    pub note_id: i32,
    pub judgement: String,
}

/// What a [`JudgeEventWrapper`] means.
#[verifier::ext_equal]
pub struct WrapperModel {
    pub user_id: i32,
    pub user_name: Seq<char>,
    pub time: u32,
    pub line_id: i32,
    pub note_id: i32,
    pub judgement: Seq<char>,
}

impl View for JudgeEventWrapper {
    type V = WrapperModel;

    open spec fn view(&self) -> WrapperModel {
        WrapperModel {
            user_id: self.user_id,
            user_name: self.user_name@,
            time: self.time,
            line_id: self.line_id,
            note_id: self.note_id,
            judgement: self.judgement@,
        }
    }
}

/// A judgement with the player it belongs to.
pub open spec fn wrapped(user_id: i32, user_name: Seq<char>, e: JudgeEvent) -> WrapperModel {
    WrapperModel {
        user_id,
        user_name,
        time: e.time,
        line_id: e.line_id,
        note_id: e.note_id,
        judgement: judgement_name(e.judgement),
    }
}

impl JudgeEventWrapper {
    /// A judgement with the player it belongs to.
    pub fn from_judge_event(user_id: i32, user_name: String, event: &JudgeEvent) -> (res:
        JudgeEventWrapper)
        ensures
            res@ == wrapped(user_id, user_name@, *event),
    {
        let judgement: &'static str = match event.judgement {
            Judgement::Perfect => "Perfect",
            Judgement::Good => "Good",
            Judgement::Bad => "Bad",
            Judgement::Miss => "Miss",
            Judgement::HoldPerfect => "HoldPerfect",
            Judgement::HoldGood => "HoldGood",
        };
        JudgeEventWrapper {
            user_id,
            user_name,
            time: event.time,
            line_id: event.line_id,
            note_id: event.note_id,
            judgement: judgement.to_owned(),
        }
    }
}

/// How many of some judgements are a given one.
pub open spec fn tally(events: Seq<JudgeEvent>, j: Judgement) -> int
    decreases events.len(),
{
    if events.len() == 0 {
        0
    } else {
        tally(events.drop_last(), j) + (if events.last().judgement == j {
            1int
        } else {
            0int
        })
    }
}

/// Every judgement is counted under its own name, once, and the score is a hundred for each
/// perfect note, held or not, fifty for each good one, and ten for each bad one.
pub proof fn law_each_counted(s: StatsModel, events: Seq<JudgeEvent>)
    ensures
        ({
            let t = with_judgements(s, events);
            &&& t.user_id == s.user_id
            &&& t.user_name == s.user_name
            &&& t.perfect == s.perfect + tally(events, Judgement::Perfect)
            &&& t.good == s.good + tally(events, Judgement::Good)
            &&& t.bad == s.bad + tally(events, Judgement::Bad)
            &&& t.miss == s.miss + tally(events, Judgement::Miss)
            &&& t.hold_perfect == s.hold_perfect + tally(events, Judgement::HoldPerfect)
            &&& t.hold_good == s.hold_good + tally(events, Judgement::HoldGood)
            &&& t.score == s.score + 100 * tally(events, Judgement::Perfect) + 100 * tally(
                events,
                Judgement::HoldPerfect,
            ) + 50 * tally(events, Judgement::Good) + 50 * tally(events, Judgement::HoldGood) + 10
                * tally(events, Judgement::Bad)
        }),
    decreases events.len(),
{
    if events.len() > 0 {
        law_each_counted(s, events.drop_last());
    }
}

/// The combo after some judgements, from the last bad or missed note on: it is the number of
/// perfect and good notes since then. Held notes neither add to it nor end it.
pub proof fn law_combo(s: StatsModel, events: Seq<JudgeEvent>, from: int)
    requires
        0 < from <= events.len(),
        events[from - 1].judgement == Judgement::Bad || events[from - 1].judgement
            == Judgement::Miss,
        forall|i: int|
            from <= i < events.len() ==> (#[trigger] events[i]).judgement != Judgement::Bad
                && events[i].judgement != Judgement::Miss,
    ensures
        with_judgements(s, events).current_combo == tally(events.skip(from), Judgement::Perfect)
            + tally(events.skip(from), Judgement::Good),
    decreases events.len(),
{
    let front = events.drop_last();
    if from == events.len() {
        assert(events.skip(from) =~= Seq::empty());
    } else {
        assert forall|i: int| from <= i < front.len() implies (#[trigger] front[i]).judgement
            != Judgement::Bad && front[i].judgement != Judgement::Miss by {
            assert(front[i] == events[i]);
        }
        assert(front[from - 1] == events[from - 1]);
        law_combo(s, front, from);
        assert(events.skip(from).drop_last() =~= front.skip(from));
        assert(events.skip(from).last() == events.last());
        assert(events[events.len() - 1].judgement != Judgement::Bad);
    }
}

/// Where no note was bad or missed, every perfect and every good one adds to the combo.
pub proof fn law_combo_goes_on(s: StatsModel, events: Seq<JudgeEvent>)
    requires
        forall|i: int|
            0 <= i < events.len() ==> (#[trigger] events[i]).judgement != Judgement::Bad
                && events[i].judgement != Judgement::Miss,
    ensures
        with_judgements(s, events).current_combo == s.current_combo + tally(
            events,
            Judgement::Perfect,
        ) + tally(events, Judgement::Good),
    decreases events.len(),
{
    if events.len() > 0 {
        let front = events.drop_last();
        assert forall|i: int| 0 <= i < front.len() implies (#[trigger] front[i]).judgement
            != Judgement::Bad && front[i].judgement != Judgement::Miss by {
            assert(front[i] == events[i]);
        }
        law_combo_goes_on(s, front);
        assert(events[events.len() - 1].judgement != Judgement::Bad);
    }
}

/// The longest combo is the largest that there was after any of the judgements, or the one
/// that was there before.
pub proof fn law_longest_combo(s: StatsModel, events: Seq<JudgeEvent>)
    ensures
        forall|n: int|
            0 < n <= events.len() ==> with_judgements(s, events).max_combo >= with_judgements(
                s,
                #[trigger] events.take(n),
            ).current_combo,
        with_judgements(s, events).max_combo >= s.max_combo,
        with_judgements(s, events).max_combo == s.max_combo || exists|n: int|
            0 < n <= events.len() && with_judgements(s, events).max_combo == with_judgements(
                s,
                #[trigger] events.take(n),
            ).current_combo,
    decreases events.len(),
{
    if events.len() > 0 {
        let front = events.drop_last();
        let last = events.len() as int;
        law_longest_combo(s, front);
        assert(events.take(last) =~= events);
        assert forall|n: int| 0 < n <= events.len() implies with_judgements(s, events).max_combo
            >= with_judgements(s, #[trigger] events.take(n)).current_combo by {
            if n < last {
                assert(front.take(n) =~= events.take(n));
            }
        }
        let t = with_judgements(s, events);
        let u = with_judgements(s, front);
        if t.max_combo == u.max_combo && u.max_combo != s.max_combo {
            let n = choose|n: int|
                0 < n <= front.len() && u.max_combo == with_judgements(
                    s,
                    #[trigger] front.take(n),
                ).current_combo;
            assert(front.take(n) =~= events.take(n));
        }
    }
}

/// Judgements that are counted in two parts are counted as they are in one.
pub proof fn law_counted_in_parts(s: StatsModel, a: Seq<JudgeEvent>, b: Seq<JudgeEvent>)
    ensures
        with_judgements(with_judgements(s, a), b) == with_judgements(s, a + b),
    decreases b.len(),
{
    if b.len() == 0 {
        assert(a + b =~= a);
    } else {
        law_counted_in_parts(s, a, b.drop_last());
        assert((a + b).drop_last() =~= a + b.drop_last());
    }
}

/// The accuracy is what the notes are worth, a perfect one in full, a good one by half and a bad
/// one by a tenth, over how many there are. Held notes do not matter to it.
pub proof fn law_accuracy_worth(s: StatsModel)
    requires
        s.perfect >= 0,
        s.good >= 0,
        s.bad >= 0,
        s.miss >= 0,
    ensures
        accuracy(s) is None <==> s.perfect == 0 && s.good == 0 && s.bad == 0 && s.miss == 0,
        accuracy(s) matches Some((n, d)) ==> n * (10 * (s.perfect + s.good + s.bad + s.miss)) == d
            * (10 * s.perfect + 5 * s.good + s.bad),
{
    let total = s.perfect + s.good + s.bad + s.miss;
    let worth = 10 * s.perfect + 5 * s.good + s.bad;
    assert((10 * worth) * (10 * total) == (100 * total) * worth) by (nonlinear_arith);
}

/// A judgement that is kept for those who watch is told with its player, moment, line and note,
/// and with the name of the judgement.
pub proof fn law_wrapped(uid: i32, name: Seq<char>, e: JudgeEvent)
    ensures
        ({
            let k = wrapped(uid, name, e);
            &&& k.user_id == uid
            &&& k.user_name == name
            &&& k.time == e.time
            &&& k.line_id == e.line_id
            &&& k.note_id == e.note_id
            &&& e.judgement == Judgement::Perfect ==> k.judgement == "Perfect"@
            &&& e.judgement == Judgement::Good ==> k.judgement == "Good"@
            &&& e.judgement == Judgement::Bad ==> k.judgement == "Bad"@
            &&& e.judgement == Judgement::Miss ==> k.judgement == "Miss"@
            &&& e.judgement == Judgement::HoldPerfect ==> k.judgement == "HoldPerfect"@
            &&& e.judgement == Judgement::HoldGood ==> k.judgement == "HoldGood"@
        }),
{
}

} // verus!
