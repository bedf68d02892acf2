//! What holds of every time zone: a fixed offset that is written out names
//! itself; and, of every table of spans, the offset changes at a transition
//! and nowhere else, a transition to a larger offset skips wall-clock times,
//! and one to a smaller offset repeats them.

use crate::iso::format::lemma_digit_char;
use crate::iso::grammar::{groups_at, two_digit_value, two_digits_at};
use crate::text::digit_char;
use crate::timezone::iana::zone_named;
use crate::timezone::timezone_impl::SpanTable;
use crate::timezone::{offset_text, timezone_named, TimeZoneParseError, ZoneKind};
use vstd::prelude::*;

verus! {

/// Two digits that spell a number below 100 are a group that stands for
/// that number.
proof fn lemma_group_reads(t: Seq<char>, at: int, n: int)
    requires
        0 <= n <= 99,
        0 <= at,
        at + 2 <= t.len(),
        t[at] == digit_char(n / 10),
        t[at + 1] == digit_char(n % 10),
    ensures
        two_digits_at(t, at),
        two_digit_value(t, at) == n,
{
    lemma_digit_char(n / 10);
    lemma_digit_char(n % 10);
}

/// A text that starts with a sign is the name of no zone of the database.
proof fn lemma_sign_names_no_zone(t: Seq<char>)
    requires
        t.len() > 0,
        t[0] == '+' || t[0] == '-',
    ensures
        zone_named(t) is None,
{
    reveal_strlit("UTC");
    reveal_strlit("Asia/Kolkata");
    reveal_strlit("Asia/Tehran");
    reveal_strlit("Asia/Tokyo");
}

/// The hours, minutes and seconds of an offset of less than a day.
proof fn lemma_offset_parts(size: int)
    requires
        0 <= size < 86400,
    ensures
        0 <= size / 3600 <= 23,
        0 <= (size / 60) % 60 <= 59,
        0 <= size % 60 <= 59,
        size == (size / 3600) * 3600 + ((size / 60) % 60) * 60 + size % 60,
{
}

/// An offset of less than a day, written out, is the name of the time zone
/// with that offset.
pub proof fn lemma_offset_text_names_offset(offset: int)
    requires
        -86400 < offset < 86400,
    ensures
        timezone_named(offset_text(offset)) == Ok::<ZoneKind, TimeZoneParseError>(
            ZoneKind::Fixed(offset),
        ),
{
    let t = offset_text(offset);
    let size = if offset < 0 {
        -offset
    } else {
        offset
    };
    let hours = size / 3600;
    let minutes = (size / 60) % 60;
    let seconds = size % 60;
    lemma_offset_parts(size);
    lemma_sign_names_no_zone(t);
    lemma_group_reads(t, 1, hours);
    lemma_group_reads(t, 4, minutes);
    if seconds != 0 {
        lemma_group_reads(t, 7, seconds);
        assert(groups_at(t, 7, true) == Some((seq![seconds as u8], 9int)));
        assert(groups_at(t, 4, true) == Some((seq![minutes as u8] + seq![seconds as u8], 9int)));
        assert(groups_at(t, 1, true) == Some(
            (seq![hours as u8] + (seq![minutes as u8] + seq![seconds as u8]), 9int),
        ));
    }
}

impl SpanTable {
    /// Whether no span but the two that meet at transition `k` holds an
    /// instant at which the wall clock shows the second `local`.
    pub open spec fn others_miss(self, k: int, local: int) -> bool {
        forall|t: int| #[trigger]
            self.count_until(t) != k && self.count_until(t) != k + 1 ==> t + self.offset_at(t)
                != local
    }

    /// Whether the transitions before and behind transition `k` lie at
    /// least two days away from it.
    pub open spec fn stands_alone(self, k: int) -> bool {
        &&& k > 0 ==> self.rest[k - 1].0 + 172800 <= self.rest[k].0
        &&& k + 1 < self.rest.len() ==> self.rest[k].0 + 172800 <= self.rest[k + 1].0
    }

    /// At a transition the span behind it is in effect, and one second
    /// before it the span before it.
    pub proof fn lemma_spans_at_transition(self, k: int)
        requires
            self.is_sorted(),
            0 <= k < self.rest.len(),
        ensures
            self.span_at(self.rest[k].0 as int) == self.span(k + 1),
            self.span_at(self.rest[k].0 - 1) == self.span(k),
    {
        let at = self.rest[k].0 as int;
        self.lemma_covers(k + 1, at);
        self.lemma_covers(k, at - 1);
    }

    /// Where the spans that meet at a transition have different offsets,
    /// the offset one second before the transition differs from the offset at
    /// it.
    pub proof fn lemma_offset_changes_at_transition(self, k: int)
        requires
            self.is_sorted(),
            0 <= k < self.rest.len(),
            self.span(k).total_offset() != self.span(k + 1).total_offset(),
        ensures
            self.offset_at(self.rest[k].0 - 1) != self.offset_at(self.rest[k].0 as int),
            self.offset_at(self.rest[k].0 - 1) == self.span(k).total_offset(),
            self.offset_at(self.rest[k].0 as int) == self.span(k + 1).total_offset(),
    {
        self.lemma_spans_at_transition(k);
    }

    /// In a table whose offsets are less than a day, no span but the two
    /// that meet at a transition that stands alone reaches a wall-clock time
    /// that lies between the two times that the clock shows at the
    /// transition.
    pub proof fn lemma_alone_others_miss(self, k: int, local: int)
        requires
            self.wf(),
            0 <= k < self.rest.len(),
            self.stands_alone(k),
            self.rest[k].0 - 86400 <= local <= self.rest[k].0 + 86400,
        ensures
            self.others_miss(k, local),
    {
        assert forall|t: int| #[trigger]
            self.count_until(t) != k && self.count_until(t) != k + 1 implies t + self.offset_at(t)
            != local by {
            let place = self.count_until(t);
            self.lemma_covers(place, t);
            self.lemma_offset_bounded(t);
        }
    }

    /// A transition to a larger offset skips the wall-clock times from the
    /// one that the clock would have shown at the transition up to the one
    /// that it shows instead: the clock shows none of them at any instant,
    /// unless another span reaches them.
    pub proof fn lemma_gap(self, k: int, local: int)
        requires
            self.is_sorted(),
            0 <= k < self.rest.len(),
            self.rest[k].0 + self.span(k).total_offset() <= local < self.rest[k].0 + self.span(
                k + 1,
            ).total_offset(),
            self.others_miss(k, local),
        ensures
            forall|t: int| t + #[trigger] self.offset_at(t) != local,
    {
        assert forall|t: int| t + #[trigger] self.offset_at(t) != local by {
            let place = self.count_until(t);
            self.lemma_covers(place, t);
        }
    }

    /// A transition to a smaller offset repeats the wall-clock times from
    /// the one that the clock shows at the transition up to the one that it
    /// would have shown: the clock shows each of them at two instants, one
    /// before the transition and one behind it, and at no other, unless
    /// another span reaches them or one of the two spans is too short.
    pub proof fn lemma_overlap(self, k: int, local: int)
        requires
            self.is_sorted(),
            0 <= k < self.rest.len(),
            self.rest[k].0 + self.span(k + 1).total_offset() <= local < self.rest[k].0 + self.span(
                k,
            ).total_offset(),
            self.others_miss(k, local),
            k > 0 ==> self.rest[k - 1].0 <= local - self.span(k).total_offset(),
            k + 1 < self.rest.len() ==> local - self.span(k + 1).total_offset() < self.rest[k
                + 1].0,
        ensures
            local - self.span(k).total_offset() < self.rest[k].0 <= local - self.span(
                k + 1,
            ).total_offset(),
            forall|t: int|
                t + #[trigger] self.offset_at(t) == local <==> (t == local - self.span(
                    k,
                ).total_offset() || t == local - self.span(k + 1).total_offset()),
    {
        let early = local - self.span(k).total_offset();
        let late = local - self.span(k + 1).total_offset();
        self.lemma_covers(k, early);
        self.lemma_covers(k + 1, late);
        assert forall|t: int|
            t + #[trigger] self.offset_at(t) == local <==> (t == early || t == late) by {
            let place = self.count_until(t);
            self.lemma_covers(place, t);
        }
    }
}

/// Whether a list holds, the earliest first, every instant at which the
/// wall clock of a zone with the given table shows the second `local`, and
/// nothing else.
pub open spec fn lists_instants(found: Seq<i64>, table: SpanTable, local: int) -> bool {
    &&& forall|i: int, j: int| 0 <= i < j < found.len() ==> found[i] < found[j]
    &&& forall|t: i64| #[trigger] found.contains(t) ==> t + table.offset_at(t as int) == local
    &&& forall|t: i64| t + #[trigger] table.offset_at(t as int) == local ==> found.contains(t)
}

/// The list of the instants of a wall-clock time that a transition to a
/// larger offset skips is empty.
pub proof fn lemma_gap_is_empty(table: SpanTable, k: int, local: int, found: Seq<i64>)
    requires
        table.is_sorted(),
        0 <= k < table.rest.len(),
        table.rest[k].0 + table.span(k).total_offset() <= local < table.rest[k].0 + table.span(
            k + 1,
        ).total_offset(),
        table.others_miss(k, local),
        lists_instants(found, table, local),
    ensures
        found.len() == 0,
{
    table.lemma_gap(k, local);
    if found.len() > 0 {
        assert(found.contains(found[0]));
    }
}

/// The list of the instants of a wall-clock time that a transition to a
/// smaller offset repeats holds two instants: the one before the transition
/// and the one behind it.
pub proof fn lemma_overlap_is_two(table: SpanTable, k: int, local: int, found: Seq<i64>)
    requires
        table.is_sorted(),
        0 <= k < table.rest.len(),
        table.rest[k].0 + table.span(k + 1).total_offset() <= local < table.rest[k].0
            + table.span(k).total_offset(),
        table.others_miss(k, local),
        k > 0 ==> table.rest[k - 1].0 <= local - table.span(k).total_offset(),
        k + 1 < table.rest.len() ==> local - table.span(k + 1).total_offset() < table.rest[k
            + 1].0,
        i64::MIN <= local - table.span(k).total_offset(),
        local - table.span(k + 1).total_offset() <= i64::MAX,
        lists_instants(found, table, local),
    ensures
        found.len() == 2,
        found[0] == local - table.span(k).total_offset(),
        found[1] == local - table.span(k + 1).total_offset(),
        found[0] < table.rest[k].0 <= found[1],
{
    table.lemma_overlap(k, local);
    let early = (local - table.span(k).total_offset()) as i64;
    let late = (local - table.span(k + 1).total_offset()) as i64;
    assert forall|t: i64| #[trigger] found.contains(t) <==> (t == early || t == late) by {
        if t == early || t == late {
            assert(t + table.offset_at(t as int) == local);
        }
    }
    lemma_two_instants(found, early, late);
}

/// In a strictly increasing list a number stands at one place only.
proof fn lemma_one_place(found: Seq<i64>, a: int, b: int)
    requires
        forall|i: int, j: int| 0 <= i < j < found.len() ==> found[i] < found[j],
        0 <= a < found.len(),
        0 <= b < found.len(),
        found[a] == found[b],
    ensures
        a == b,
{
}

/// A strictly increasing list that holds two numbers and nothing else is
/// the list of the two, the smaller first.
pub proof fn lemma_two_instants(found: Seq<i64>, early: i64, late: i64)
    requires
        early < late,
        forall|i: int, j: int| 0 <= i < j < found.len() ==> found[i] < found[j],
        forall|t: i64| #[trigger] found.contains(t) <==> (t == early || t == late),
    ensures
        found =~= seq![early, late],
{
    assert(found.contains(early));
    assert(found.contains(late));
    let i = choose|i: int| 0 <= i < found.len() && found[i] == early;
    let j = choose|j: int| 0 <= j < found.len() && found[j] == late;
    assert(found.contains(found[0]));
    lemma_one_place(found, 0, if found[0] == early {
        i
    } else {
        j
    });
    assert(found.contains(found[1]));
    lemma_one_place(found, 1, if found[1] == early {
        i
    } else {
        j
    });
    if found.len() > 2 {
        assert(found.contains(found[2]));
        lemma_one_place(found, 2, if found[2] == early {
            i
        } else {
            j
        });
    }
}

} // verus!
