//! The table of a named zone: the offsets that have been in effect, and
//! the instants at which one gave way to the next.

use vstd::prelude::*;

verus! {

/// An offset from UTC that is in effect for a span of time.
///
/// A zone such as that of Tehran is made of at least two: standard time and
/// daylight saving time, which take turns.
#[derive(Copy, Clone, PartialEq, Eq)]
pub struct FixedTimespan {
    /// The offset of standard time from UTC, in seconds.
    pub utc_offset: i32,
    /// What daylight saving time adds to it, in seconds.
    pub dst_offset: i32,
    /// The abbreviation that the span goes by.
    pub name: &'static str,
}

impl FixedTimespan {
    /// The offset of local time from UTC, in seconds.
    pub open spec fn total_offset(self) -> int {
        self.utc_offset + self.dst_offset
    }

    /// The offset is less than a day.
    pub open spec fn is_bounded(self) -> bool {
        -86400 < self.total_offset() < 86400
    }

    /// The offset of local time from UTC, in seconds.
    pub fn second_offset(&self) -> (r: i64)
        ensures
            r == self.total_offset(),
    {
        self.utc_offset as i64 + self.dst_offset as i64
    }
}

/// The spans of a zone: the one in effect before the first transition, and
/// each transition with the span that starts at it.
pub struct FixedTimespanSet {
    pub first: FixedTimespan,
    pub rest: Vec<(i64, FixedTimespan)>,
}

/// The spans of a zone as a mathematical value.
pub struct SpanTable {
    pub first: FixedTimespan,
    pub rest: Seq<(i64, FixedTimespan)>,
}

impl View for FixedTimespanSet {
    type V = SpanTable;

    open spec fn view(&self) -> SpanTable {
        SpanTable { first: self.first, rest: self.rest@ }
    }
}

/// Whether the transitions are strictly increasing.
pub open spec fn transitions_sorted(rest: Seq<(i64, FixedTimespan)>) -> bool {
    forall|i: int, j: int|
        0 <= i < j < rest.len() ==> (#[trigger] rest[i]).0 < (#[trigger] rest[j]).0
}

/// Whether the offset of each span is less than a day.
pub open spec fn transitions_bounded(rest: Seq<(i64, FixedTimespan)>) -> bool {
    forall|i: int| 0 <= i < rest.len() ==> (#[trigger] rest[i]).1.is_bounded()
}

impl SpanTable {
    /// The transitions are strictly increasing.
    pub open spec fn is_sorted(self) -> bool {
        transitions_sorted(self.rest)
    }

    /// Every offset is less than a day.
    pub open spec fn is_bounded(self) -> bool {
        self.first.is_bounded() && transitions_bounded(self.rest)
    }

    /// The transitions are strictly increasing and every offset is less than
    /// a day.
    pub open spec fn wf(self) -> bool {
        self.is_sorted() && self.is_bounded()
    }

    /// How many transitions have taken place by the second `sec`.
    pub open spec fn count_until(self, sec: int) -> int {
        transitions_until(self.rest, sec)
    }

    /// The span in effect at the second `sec`: the one that starts at the
    /// latest transition that is not later than `sec`, or the first span where
    /// `sec` lies before every transition.
    pub open spec fn span_at(self, sec: int) -> FixedTimespan {
        if self.count_until(sec) == 0 {
            self.first
        } else {
            self.rest[self.count_until(sec) - 1].1
        }
    }

    /// The offset of local time from UTC at the second `sec`.
    pub open spec fn offset_at(self, sec: int) -> int {
        self.span_at(sec).total_offset()
    }

    /// The span with the given place: 0 is the first span, `k` the one that
    /// starts at transition `k - 1`.
    pub open spec fn span(self, place: int) -> FixedTimespan {
        if place <= 0 {
            self.first
        } else {
            self.rest[place - 1].1
        }
    }

    /// Whether the span with the given place is in effect at `sec`.
    pub open spec fn covers(self, place: int, sec: int) -> bool {
        &&& 0 <= place <= self.rest.len()
        &&& place > 0 ==> self.rest[place - 1].0 <= sec
        &&& place < self.rest.len() ==> sec < self.rest[place].0
    }
}

/// How many of the transitions, counted from the first, are not later than
/// `sec`, where the transitions are sorted: the place behind the last one that
/// is not later.
pub open spec fn transitions_until(rest: Seq<(i64, FixedTimespan)>, sec: int) -> int
    decreases rest.len(),
{
    if rest.len() == 0 {
        0
    } else if rest.last().0 <= sec {
        rest.len() as int
    } else {
        transitions_until(rest.drop_last(), sec)
    }
}

/// The transitions that have taken place by `sec` are those before the
/// count, and no others.
pub proof fn lemma_transitions_until(rest: Seq<(i64, FixedTimespan)>, sec: int)
    requires
        transitions_sorted(rest),
    ensures
        0 <= transitions_until(rest, sec) <= rest.len(),
        forall|i: int| 0 <= i < transitions_until(rest, sec) ==> (#[trigger] rest[i]).0 <= sec,
        forall|i: int|
            transitions_until(rest, sec) <= i < rest.len() ==> sec < (#[trigger] rest[i]).0,
    decreases rest.len(),
{
    if rest.len() > 0 && rest.last().0 > sec {
        let shorter = rest.drop_last();
        assert forall|i: int, j: int| 0 <= i < j < shorter.len() implies (
        #[trigger] shorter[i]).0 < (#[trigger] shorter[j]).0 by {}
        lemma_transitions_until(shorter, sec);
        assert forall|i: int| 0 <= i < transitions_until(rest, sec) implies (
        #[trigger] rest[i]).0 <= sec by {
            assert(shorter[i] == rest[i]);
        }
        assert forall|i: int| transitions_until(rest, sec) <= i < rest.len() implies sec < (
        #[trigger] rest[i]).0 by {
            if i < shorter.len() {
                assert(shorter[i] == rest[i]);
            }
        }
    } else if rest.len() > 0 {
        assert forall|i: int| 0 <= i < rest.len() implies (#[trigger] rest[i]).0 <= sec by {}
    }
}

impl SpanTable {
    /// Exactly one span is in effect at each second: the one whose place is
    /// the count of the transitions up to that second.
    pub proof fn lemma_covers(self, place: int, sec: int)
        requires
            self.is_sorted(),
        ensures
            self.covers(place, sec) <==> place == self.count_until(sec),
            self.covers(place, sec) ==> self.span_at(sec) == self.span(place),
    {
        lemma_transitions_until(self.rest, sec);
    }

    /// The offset at any second is less than a day.
    pub proof fn lemma_offset_bounded(self, sec: int)
        requires
            self.wf(),
        ensures
            -86400 < self.offset_at(sec) < 86400,
    {
        lemma_transitions_until(self.rest, sec);
    }

    /// A later second has seen at least as many transitions.
    pub proof fn lemma_count_monotonic(self, early: int, late: int)
        requires
            self.is_sorted(),
            early <= late,
        ensures
            0 <= self.count_until(early) <= self.count_until(late) <= self.rest.len(),
    {
        lemma_transitions_until(self.rest, early);
        lemma_transitions_until(self.rest, late);
        let a = self.count_until(early);
        let b = self.count_until(late);
        if a > b {
            assert(late < self.rest[a - 1].0);
        }
    }
}


/// The transitions with one more behind them that is later than all of
/// them. They stay strictly increasing, and their offsets less than a day.
pub proof fn lemma_push_transition(
    rest: Seq<(i64, FixedTimespan)>,
    at: i64,
    span: FixedTimespan,
) -> (longer: Seq<(i64, FixedTimespan)>)
    requires
        rest.len() > 0 ==> rest.last().0 < at,
        transitions_sorted(rest),
        transitions_bounded(rest),
        span.is_bounded(),
    ensures
        longer == rest.push((at, span)),
        longer.last() == (at, span),
        transitions_sorted(longer),
        transitions_bounded(longer),
{
    let longer = rest.push((at, span));
    assert forall|i: int, j: int| 0 <= i < j < longer.len() implies (#[trigger] longer[i]).0 < (
    #[trigger] longer[j]).0 by {}
    assert forall|i: int| 0 <= i < longer.len() implies (#[trigger] longer[i]).1.is_bounded() by {}
    longer
}

impl FixedTimespanSet {
    /// Whether the transitions are strictly increasing and every offset is
    /// less than a day.
    pub fn is_well_formed(&self) -> (r: bool)
        ensures
            r == self@.wf(),
    {
        if !(-86400 < self.first.second_offset() && self.first.second_offset() < 86400) {
            return false;
        }
        let mut i: usize = 0;
        while i < self.rest.len()
            invariant
                i <= self.rest@.len(),
                self.first.is_bounded(),
                transitions_sorted(self.rest@.take(i as int)),
                transitions_bounded(self.rest@.take(i as int)),
            decreases self.rest@.len() - i,
        {
            let offset = self.rest[i].1.second_offset();
            if !(-86400 < offset && offset < 86400) {
                return false;
            }
            if i > 0 && self.rest[i - 1].0 >= self.rest[i].0 {
                return false;
            }
            proof {
                let before = self.rest@.take(i as int);
                let after = self.rest@.take(i + 1);
                assert forall|a: int, b: int| 0 <= a < b < after.len() implies (
                #[trigger] after[a]).0 < (#[trigger] after[b]).0 by {
                    if b >= i && a < i - 1 {
                        assert(before[a].0 < before[i - 1].0);
                    }
                }
                assert forall|a: int| 0 <= a < after.len() implies (
                #[trigger] after[a]).1.is_bounded() by {}
            }
            i = i + 1;
        }
        assert(self.rest@.take(i as int) =~= self.rest@);
        true
    }

    /// How many transitions have taken place by the second `sec`: found by
    /// halving the table.
    pub fn count_with_sec(&self, sec: i64) -> (r: usize)
        requires
            self@.is_sorted(),
        ensures
            r == self@.count_until(sec as int),
            r <= self.rest@.len(),
    {
        proof {
            lemma_transitions_until(self.rest@, sec as int);
        }
        if self.rest.len() == 0 || sec < self.rest[0].0 {
            proof {
                self@.lemma_covers(0, sec as int);
            }
            return 0;
        }
        let mut l: usize = 0;
        let mut r: usize = self.rest.len();
        while r - l > 1
            invariant
                l < r <= self.rest@.len(),
                self.rest@[l as int].0 <= sec,
                r < self.rest@.len() ==> sec < self.rest@[r as int].0,
            decreases r - l,
        {
            let mid = l + (r - l) / 2;
            if sec < self.rest[mid].0 {
                r = mid;
            } else {
                l = mid;
            }
        }
        proof {
            self@.lemma_covers(l + 1, sec as int);
        }
        l + 1
    }

    /// The span in effect at the second `sec`.
    pub fn select_with_sec(&self, sec: i64) -> (r: FixedTimespan)
        requires
            self@.is_sorted(),
        ensures
            r == self@.span_at(sec as int),
    {
        let count = self.count_with_sec(sec);
        if count == 0 {
            self.first
        } else {
            self.rest[count - 1].1
        }
    }
}

/// What has a table of spans.
pub trait TimeSpans {
    /// The spans, as a mathematical value.
    spec fn table(&self) -> SpanTable;

    /// The spans: strictly increasing transitions, and offsets of less than
    /// a day.
    fn timespans(&self) -> (r: FixedTimespanSet)
        ensures
            r@ == self.table(),
            r@.wf(),
    ;
}

} // verus!
