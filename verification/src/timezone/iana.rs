//! The zones of the IANA time zone database that this library knows, each
//! with the whole of its history as release 2025b of the database has it.

use crate::text::{chars_of, matches_ignoring_case, same_ignoring_case};
use crate::timezone::timezone_impl::{
    lemma_push_transition, FixedTimespan, FixedTimespanSet, SpanTable, TimeSpans,
};
use vstd::prelude::*;

verus! {

/// A zone of the IANA time zone database.
#[derive(Debug, Clone, Copy, PartialEq, Eq)]
pub enum Tz {
    /// `UTC`
    UTC,
    /// `Asia/Kolkata`
    AsiaKolkata,
    /// `Asia/Tehran`
    AsiaTehran,
    /// `Asia/Tokyo`
    AsiaTokyo,
}

/// The zone with the given name. Capital and small ASCII letters count as
/// the same.
pub open spec fn zone_named(name: Seq<char>) -> Option<Tz> {
    if same_ignoring_case(name, "UTC"@) {
        Some(Tz::UTC)
    } else if same_ignoring_case(name, "Asia/Kolkata"@) {
        Some(Tz::AsiaKolkata)
    } else if same_ignoring_case(name, "Asia/Tehran"@) {
        Some(Tz::AsiaTehran)
    } else if same_ignoring_case(name, "Asia/Tokyo"@) {
        Some(Tz::AsiaTokyo)
    } else {
        None
    }
}

impl Tz {
    /// The name of the zone in the database.
    pub open spec fn name_text(self) -> Seq<char> {
        match self {
            Tz::UTC => "UTC"@,
            Tz::AsiaKolkata => "Asia/Kolkata"@,
            Tz::AsiaTehran => "Asia/Tehran"@,
            Tz::AsiaTokyo => "Asia/Tokyo"@,
        }
    }

    /// The name of the zone in the database.
    pub fn name(&self) -> (r: &'static str)
        ensures
            r@ == self.name_text(),
    {
        match self {
            Tz::UTC => "UTC",
            Tz::AsiaKolkata => "Asia/Kolkata",
            Tz::AsiaTehran => "Asia/Tehran",
            Tz::AsiaTokyo => "Asia/Tokyo",
        }
    }

    /// The zone with the given name, whatever the case of its letters.
    pub fn from_str_insensitive(s: &str) -> (r: Result<Tz, ()>)
        ensures
            r is Ok <==> zone_named(s@) is Some,
            r matches Ok(zone) ==> zone_named(s@) == Some(zone),
    {
        let chars = chars_of(s);
        if matches_ignoring_case(chars.as_slice(), "UTC") {
            Ok(Tz::UTC)
        } else if matches_ignoring_case(chars.as_slice(), "Asia/Kolkata") {
            Ok(Tz::AsiaKolkata)
        } else if matches_ignoring_case(chars.as_slice(), "Asia/Tehran") {
            Ok(Tz::AsiaTehran)
        } else if matches_ignoring_case(chars.as_slice(), "Asia/Tokyo") {
            Ok(Tz::AsiaTokyo)
        } else {
            Err(())
        }
    }
}

impl Tz {
    /// The transitions of every zone are strictly increasing, and its
    /// offsets are less than a day.
    pub proof fn lemma_table_wf(self)
        ensures
            self.table().wf(),
    {
        match self {
            Tz::UTC => lemma_utc_wf(),
            Tz::AsiaKolkata => lemma_asia_kolkata_wf(),
            Tz::AsiaTehran => lemma_asia_tehran_wf(),
            Tz::AsiaTokyo => lemma_asia_tokyo_wf(),
        }
    }
}

impl TimeSpans for Tz {
    open spec fn table(&self) -> SpanTable {
        match *self {
            Tz::UTC => utc_table(),
            Tz::AsiaKolkata => asia_kolkata_table(),
            Tz::AsiaTehran => asia_tehran_table(),
            Tz::AsiaTokyo => asia_tokyo_table(),
        }
    }

    fn timespans(&self) -> (r: FixedTimespanSet) {
        match self {
            Tz::UTC => utc(),
            Tz::AsiaKolkata => asia_kolkata(),
            Tz::AsiaTehran => asia_tehran(),
            Tz::AsiaTokyo => asia_tokyo(),
        }
    }
}

/// The spans of `UTC`.
pub open spec fn utc_table() -> SpanTable {
    SpanTable {
        first: FixedTimespan { utc_offset: 0, dst_offset: 0, name: "UTC" },
        rest: Seq::empty(),
    }
}

/// The transitions of `UTC` are strictly increasing, and its offsets are
/// less than a day.
pub proof fn lemma_utc_wf()
    ensures
        utc_table().wf(),
{
}

/// The spans of `UTC`.
pub fn utc() -> (r: FixedTimespanSet)
    ensures
        r@ == utc_table(),
        r@.wf(),
{
    let rest: Vec<(i64, FixedTimespan)> = Vec::new();
    proof {
        lemma_utc_wf();
    }
    FixedTimespanSet {
        first: FixedTimespan { utc_offset: 0, dst_offset: 0, name: "UTC" },
        rest,
    }
}

/// The spans of `Asia/Kolkata`.
pub open spec fn asia_kolkata_table() -> SpanTable {
    SpanTable {
        first: FixedTimespan { utc_offset: 21208, dst_offset: 0, name: "LMT" },
        rest: Seq::empty().push(
            (-3645237208i64, FixedTimespan { utc_offset: 21200, dst_offset: 0, name: "HMT" }),
        ).push(
            (-3155694800i64, FixedTimespan { utc_offset: 19270, dst_offset: 0, name: "MMT" }),
        ).push(
            (-2019705670i64, FixedTimespan { utc_offset: 19800, dst_offset: 0, name: "IST" }),
        ).push(
            (-891581400i64, FixedTimespan { utc_offset: 19800, dst_offset: 3600, name: "+0630" }),
        ).push(
            (-872058600i64, FixedTimespan { utc_offset: 19800, dst_offset: 0, name: "IST" }),
        ).push(
            (-862637400i64, FixedTimespan { utc_offset: 19800, dst_offset: 3600, name: "+0630" }),
        ).push(
            (-764145000i64, FixedTimespan { utc_offset: 19800, dst_offset: 0, name: "IST" }),
        ),
    }
}

/// The transitions of `Asia/Kolkata` are strictly increasing, and its
/// offsets are less than a day.
pub proof fn lemma_asia_kolkata_wf()
    ensures
        asia_kolkata_table().wf(),
{
    let rest = Seq::<(i64, FixedTimespan)>::empty();
    let rest = lemma_push_transition(
        rest,
        -3645237208i64,
        FixedTimespan { utc_offset: 21200, dst_offset: 0, name: "HMT" },
    );
    let rest = lemma_push_transition(
        rest,
        -3155694800i64,
        FixedTimespan { utc_offset: 19270, dst_offset: 0, name: "MMT" },
    );
    let rest = lemma_push_transition(
        rest,
        -2019705670i64,
        FixedTimespan { utc_offset: 19800, dst_offset: 0, name: "IST" },
    );
    let rest = lemma_push_transition(
        rest,
        -891581400i64,
        FixedTimespan { utc_offset: 19800, dst_offset: 3600, name: "+0630" },
    );
    let rest = lemma_push_transition(
        rest,
        -872058600i64,
        FixedTimespan { utc_offset: 19800, dst_offset: 0, name: "IST" },
    );
    let rest = lemma_push_transition(
        rest,
        -862637400i64,
        FixedTimespan { utc_offset: 19800, dst_offset: 3600, name: "+0630" },
    );
    let rest = lemma_push_transition(
        rest,
        -764145000i64,
        FixedTimespan { utc_offset: 19800, dst_offset: 0, name: "IST" },
    );
}

/// The spans of `Asia/Kolkata`.
pub fn asia_kolkata() -> (r: FixedTimespanSet)
    ensures
        r@ == asia_kolkata_table(),
        r@.wf(),
{
    let mut rest: Vec<(i64, FixedTimespan)> = Vec::new();
    rest.push((-3645237208, FixedTimespan { utc_offset: 21200, dst_offset: 0, name: "HMT" }));
    rest.push((-3155694800, FixedTimespan { utc_offset: 19270, dst_offset: 0, name: "MMT" }));
    rest.push((-2019705670, FixedTimespan { utc_offset: 19800, dst_offset: 0, name: "IST" }));
    rest.push((-891581400, FixedTimespan { utc_offset: 19800, dst_offset: 3600, name: "+0630" }));
    rest.push((-872058600, FixedTimespan { utc_offset: 19800, dst_offset: 0, name: "IST" }));
    rest.push((-862637400, FixedTimespan { utc_offset: 19800, dst_offset: 3600, name: "+0630" }));
    rest.push((-764145000, FixedTimespan { utc_offset: 19800, dst_offset: 0, name: "IST" }));
    proof {
        lemma_asia_kolkata_wf();
    }
    FixedTimespanSet {
        first: FixedTimespan { utc_offset: 21208, dst_offset: 0, name: "LMT" },
        rest,
    }
}

/// The spans of `Asia/Tehran`.
pub open spec fn asia_tehran_table() -> SpanTable {
    SpanTable {
        first: FixedTimespan { utc_offset: 12344, dst_offset: 0, name: "LMT" },
        rest: Seq::empty().push(
            (-1704165944i64, FixedTimespan { utc_offset: 12344, dst_offset: 0, name: "TMT" }),
        ).push(
            (-1090466744i64, FixedTimespan { utc_offset: 12600, dst_offset: 0, name: "+0330" }),
        ).push(
            (227820600i64, FixedTimespan { utc_offset: 12600, dst_offset: 3600, name: "+0430" }),
        ).push(
            (246223800i64, FixedTimespan { utc_offset: 14400, dst_offset: 0, name: "+04" }),
        ).push(
            (259617600i64, FixedTimespan { utc_offset: 14400, dst_offset: 3600, name: "+05" }),
        ).push(
            (271108800i64, FixedTimespan { utc_offset: 14400, dst_offset: 0, name: "+04" }),
        ).push(
            (279576000i64, FixedTimespan { utc_offset: 12600, dst_offset: 0, name: "+0330" }),
        ).push(
            (296598600i64, FixedTimespan { utc_offset: 12600, dst_offset: 3600, name: "+0430" }),
        ).push(
            (306531000i64, FixedTimespan { utc_offset: 12600, dst_offset: 0, name: "+0330" }),
        ).push(
            (322432200i64, FixedTimespan { utc_offset: 12600, dst_offset: 3600, name: "+0430" }),
        ).push(
            (338499000i64, FixedTimespan { utc_offset: 12600, dst_offset: 0, name: "+0330" }),
        ).push(
            (673216200i64, FixedTimespan { utc_offset: 12600, dst_offset: 3600, name: "+0430" }),
        ).push(
            (685481400i64, FixedTimespan { utc_offset: 12600, dst_offset: 0, name: "+0330" }),
        ).push(
            (701209800i64, FixedTimespan { utc_offset: 12600, dst_offset: 3600, name: "+0430" }),
        ).push(
            (717103800i64, FixedTimespan { utc_offset: 12600, dst_offset: 0, name: "+0330" }),
        ).push(
            (732745800i64, FixedTimespan { utc_offset: 12600, dst_offset: 3600, name: "+0430" }),
        ).push(
            (748639800i64, FixedTimespan { utc_offset: 12600, dst_offset: 0, name: "+0330" }),
        ).push(
            (764281800i64, FixedTimespan { utc_offset: 12600, dst_offset: 3600, name: "+0430" }),
        ).push(
            (780175800i64, FixedTimespan { utc_offset: 12600, dst_offset: 0, name: "+0330" }),
        ).push(
            (795817800i64, FixedTimespan { utc_offset: 12600, dst_offset: 3600, name: "+0430" }),
        ).push(
            (811711800i64, FixedTimespan { utc_offset: 12600, dst_offset: 0, name: "+0330" }),
        ).push(
            (827353800i64, FixedTimespan { utc_offset: 12600, dst_offset: 3600, name: "+0430" }),
        ).push(
            (843247800i64, FixedTimespan { utc_offset: 12600, dst_offset: 0, name: "+0330" }),
        ).push(
            (858976200i64, FixedTimespan { utc_offset: 12600, dst_offset: 3600, name: "+0430" }),
        ).push(
            (874870200i64, FixedTimespan { utc_offset: 12600, dst_offset: 0, name: "+0330" }),
        ).push(
            (890512200i64, FixedTimespan { utc_offset: 12600, dst_offset: 3600, name: "+0430" }),
        ).push(
            (906406200i64, FixedTimespan { utc_offset: 12600, dst_offset: 0, name: "+0330" }),
        ).push(
            (922048200i64, FixedTimespan { utc_offset: 12600, dst_offset: 3600, name: "+0430" }),
        ).push(
            (937942200i64, FixedTimespan { utc_offset: 12600, dst_offset: 0, name: "+0330" }),
        ).push(
            (953584200i64, FixedTimespan { utc_offset: 12600, dst_offset: 3600, name: "+0430" }),
        ).push(
            (969478200i64, FixedTimespan { utc_offset: 12600, dst_offset: 0, name: "+0330" }),
        ).push(
            (985206600i64, FixedTimespan { utc_offset: 12600, dst_offset: 3600, name: "+0430" }),
        ).push(
            (1001100600i64, FixedTimespan { utc_offset: 12600, dst_offset: 0, name: "+0330" }),
        ).push(
            (1016742600i64, FixedTimespan { utc_offset: 12600, dst_offset: 3600, name: "+0430" }),
        ).push(
            (1032636600i64, FixedTimespan { utc_offset: 12600, dst_offset: 0, name: "+0330" }),
        ).push(
            (1048278600i64, FixedTimespan { utc_offset: 12600, dst_offset: 3600, name: "+0430" }),
        ).push(
            (1064172600i64, FixedTimespan { utc_offset: 12600, dst_offset: 0, name: "+0330" }),
        ).push(
            (1079814600i64, FixedTimespan { utc_offset: 12600, dst_offset: 3600, name: "+0430" }),
        ).push(
            (1095708600i64, FixedTimespan { utc_offset: 12600, dst_offset: 0, name: "+0330" }),
        ).push(
            (1111437000i64, FixedTimespan { utc_offset: 12600, dst_offset: 3600, name: "+0430" }),
        ).push(
            (1127331000i64, FixedTimespan { utc_offset: 12600, dst_offset: 0, name: "+0330" }),
        ).push(
            (1206045000i64, FixedTimespan { utc_offset: 12600, dst_offset: 3600, name: "+0430" }),
        ).push(
            (1221939000i64, FixedTimespan { utc_offset: 12600, dst_offset: 0, name: "+0330" }),
        ).push(
            (1237667400i64, FixedTimespan { utc_offset: 12600, dst_offset: 3600, name: "+0430" }),
        ).push(
            (1253561400i64, FixedTimespan { utc_offset: 12600, dst_offset: 0, name: "+0330" }),
        ).push(
            (1269203400i64, FixedTimespan { utc_offset: 12600, dst_offset: 3600, name: "+0430" }),
        ).push(
            (1285097400i64, FixedTimespan { utc_offset: 12600, dst_offset: 0, name: "+0330" }),
        ).push(
            (1300739400i64, FixedTimespan { utc_offset: 12600, dst_offset: 3600, name: "+0430" }),
        ).push(
            (1316633400i64, FixedTimespan { utc_offset: 12600, dst_offset: 0, name: "+0330" }),
        ).push(
            (1332275400i64, FixedTimespan { utc_offset: 12600, dst_offset: 3600, name: "+0430" }),
        ).push(
            (1348169400i64, FixedTimespan { utc_offset: 12600, dst_offset: 0, name: "+0330" }),
        ).push(
            (1363897800i64, FixedTimespan { utc_offset: 12600, dst_offset: 3600, name: "+0430" }),
        ).push(
            (1379791800i64, FixedTimespan { utc_offset: 12600, dst_offset: 0, name: "+0330" }),
        ).push(
            (1395433800i64, FixedTimespan { utc_offset: 12600, dst_offset: 3600, name: "+0430" }),
        ).push(
            (1411327800i64, FixedTimespan { utc_offset: 12600, dst_offset: 0, name: "+0330" }),
        ).push(
            (1426969800i64, FixedTimespan { utc_offset: 12600, dst_offset: 3600, name: "+0430" }),
        ).push(
            (1442863800i64, FixedTimespan { utc_offset: 12600, dst_offset: 0, name: "+0330" }),
        ).push(
            (1458505800i64, FixedTimespan { utc_offset: 12600, dst_offset: 3600, name: "+0430" }),
        ).push(
            (1474399800i64, FixedTimespan { utc_offset: 12600, dst_offset: 0, name: "+0330" }),
        ).push(
            (1490128200i64, FixedTimespan { utc_offset: 12600, dst_offset: 3600, name: "+0430" }),
        ).push(
            (1506022200i64, FixedTimespan { utc_offset: 12600, dst_offset: 0, name: "+0330" }),
        ).push(
            (1521664200i64, FixedTimespan { utc_offset: 12600, dst_offset: 3600, name: "+0430" }),
        ).push(
            (1537558200i64, FixedTimespan { utc_offset: 12600, dst_offset: 0, name: "+0330" }),
        ).push(
            (1553200200i64, FixedTimespan { utc_offset: 12600, dst_offset: 3600, name: "+0430" }),
        ).push(
            (1569094200i64, FixedTimespan { utc_offset: 12600, dst_offset: 0, name: "+0330" }),
        ).push(
            (1584736200i64, FixedTimespan { utc_offset: 12600, dst_offset: 3600, name: "+0430" }),
        ).push(
            (1600630200i64, FixedTimespan { utc_offset: 12600, dst_offset: 0, name: "+0330" }),
        ).push(
            (1616358600i64, FixedTimespan { utc_offset: 12600, dst_offset: 3600, name: "+0430" }),
        ).push(
            (1632252600i64, FixedTimespan { utc_offset: 12600, dst_offset: 0, name: "+0330" }),
        ).push(
            (1647894600i64, FixedTimespan { utc_offset: 12600, dst_offset: 3600, name: "+0430" }),
        ).push(
            (1663788600i64, FixedTimespan { utc_offset: 12600, dst_offset: 0, name: "+0330" }),
        ),
    }
}

/// The transitions of `Asia/Tehran` are strictly increasing, and its offsets
/// are less than a day.
pub proof fn lemma_asia_tehran_wf()
    ensures
        asia_tehran_table().wf(),
{
    let rest = Seq::<(i64, FixedTimespan)>::empty();
    let rest = lemma_push_transition(
        rest,
        -1704165944i64,
        FixedTimespan { utc_offset: 12344, dst_offset: 0, name: "TMT" },
    );
    let rest = lemma_push_transition(
        rest,
        -1090466744i64,
        FixedTimespan { utc_offset: 12600, dst_offset: 0, name: "+0330" },
    );
    let rest = lemma_push_transition(
        rest,
        227820600i64,
        FixedTimespan { utc_offset: 12600, dst_offset: 3600, name: "+0430" },
    );
    let rest = lemma_push_transition(
        rest,
        246223800i64,
        FixedTimespan { utc_offset: 14400, dst_offset: 0, name: "+04" },
    );
    let rest = lemma_push_transition(
        rest,
        259617600i64,
        FixedTimespan { utc_offset: 14400, dst_offset: 3600, name: "+05" },
    );
    let rest = lemma_push_transition(
        rest,
        271108800i64,
        FixedTimespan { utc_offset: 14400, dst_offset: 0, name: "+04" },
    );
    let rest = lemma_push_transition(
        rest,
        279576000i64,
        FixedTimespan { utc_offset: 12600, dst_offset: 0, name: "+0330" },
    );
    let rest = lemma_push_transition(
        rest,
        296598600i64,
        FixedTimespan { utc_offset: 12600, dst_offset: 3600, name: "+0430" },
    );
    let rest = lemma_push_transition(
        rest,
        306531000i64,
        FixedTimespan { utc_offset: 12600, dst_offset: 0, name: "+0330" },
    );
    let rest = lemma_push_transition(
        rest,
        322432200i64,
        FixedTimespan { utc_offset: 12600, dst_offset: 3600, name: "+0430" },
    );
    let rest = lemma_push_transition(
        rest,
        338499000i64,
        FixedTimespan { utc_offset: 12600, dst_offset: 0, name: "+0330" },
    );
    let rest = lemma_push_transition(
        rest,
        673216200i64,
        FixedTimespan { utc_offset: 12600, dst_offset: 3600, name: "+0430" },
    );
    let rest = lemma_push_transition(
        rest,
        685481400i64,
        FixedTimespan { utc_offset: 12600, dst_offset: 0, name: "+0330" },
    );
    let rest = lemma_push_transition(
        rest,
        701209800i64,
        FixedTimespan { utc_offset: 12600, dst_offset: 3600, name: "+0430" },
    );
    let rest = lemma_push_transition(
        rest,
        717103800i64,
        FixedTimespan { utc_offset: 12600, dst_offset: 0, name: "+0330" },
    );
    let rest = lemma_push_transition(
        rest,
        732745800i64,
        FixedTimespan { utc_offset: 12600, dst_offset: 3600, name: "+0430" },
    );
    let rest = lemma_push_transition(
        rest,
        748639800i64,
        FixedTimespan { utc_offset: 12600, dst_offset: 0, name: "+0330" },
    );
    let rest = lemma_push_transition(
        rest,
        764281800i64,
        FixedTimespan { utc_offset: 12600, dst_offset: 3600, name: "+0430" },
    );
    let rest = lemma_push_transition(
        rest,
        780175800i64,
        FixedTimespan { utc_offset: 12600, dst_offset: 0, name: "+0330" },
    );
    let rest = lemma_push_transition(
        rest,
        795817800i64,
        FixedTimespan { utc_offset: 12600, dst_offset: 3600, name: "+0430" },
    );
    let rest = lemma_push_transition(
        rest,
        811711800i64,
        FixedTimespan { utc_offset: 12600, dst_offset: 0, name: "+0330" },
    );
    let rest = lemma_push_transition(
        rest,
        827353800i64,
        FixedTimespan { utc_offset: 12600, dst_offset: 3600, name: "+0430" },
    );
    let rest = lemma_push_transition(
        rest,
        843247800i64,
        FixedTimespan { utc_offset: 12600, dst_offset: 0, name: "+0330" },
    );
    let rest = lemma_push_transition(
        rest,
        858976200i64,
        FixedTimespan { utc_offset: 12600, dst_offset: 3600, name: "+0430" },
    );
    let rest = lemma_push_transition(
        rest,
        874870200i64,
        FixedTimespan { utc_offset: 12600, dst_offset: 0, name: "+0330" },
    );
    let rest = lemma_push_transition(
        rest,
        890512200i64,
        FixedTimespan { utc_offset: 12600, dst_offset: 3600, name: "+0430" },
    );
    let rest = lemma_push_transition(
        rest,
        906406200i64,
        FixedTimespan { utc_offset: 12600, dst_offset: 0, name: "+0330" },
    );
    let rest = lemma_push_transition(
        rest,
        922048200i64,
        FixedTimespan { utc_offset: 12600, dst_offset: 3600, name: "+0430" },
    );
    let rest = lemma_push_transition(
        rest,
        937942200i64,
        FixedTimespan { utc_offset: 12600, dst_offset: 0, name: "+0330" },
    );
    let rest = lemma_push_transition(
        rest,
        953584200i64,
        FixedTimespan { utc_offset: 12600, dst_offset: 3600, name: "+0430" },
    );
    let rest = lemma_push_transition(
        rest,
        969478200i64,
        FixedTimespan { utc_offset: 12600, dst_offset: 0, name: "+0330" },
    );
    let rest = lemma_push_transition(
        rest,
        985206600i64,
        FixedTimespan { utc_offset: 12600, dst_offset: 3600, name: "+0430" },
    );
    let rest = lemma_push_transition(
        rest,
        1001100600i64,
        FixedTimespan { utc_offset: 12600, dst_offset: 0, name: "+0330" },
    );
    let rest = lemma_push_transition(
        rest,
        1016742600i64,
        FixedTimespan { utc_offset: 12600, dst_offset: 3600, name: "+0430" },
    );
    let rest = lemma_push_transition(
        rest,
        1032636600i64,
        FixedTimespan { utc_offset: 12600, dst_offset: 0, name: "+0330" },
    );
    let rest = lemma_push_transition(
        rest,
        1048278600i64,
        FixedTimespan { utc_offset: 12600, dst_offset: 3600, name: "+0430" },
    );
    let rest = lemma_push_transition(
        rest,
        1064172600i64,
        FixedTimespan { utc_offset: 12600, dst_offset: 0, name: "+0330" },
    );
    let rest = lemma_push_transition(
        rest,
        1079814600i64,
        FixedTimespan { utc_offset: 12600, dst_offset: 3600, name: "+0430" },
    );
    let rest = lemma_push_transition(
        rest,
        1095708600i64,
        FixedTimespan { utc_offset: 12600, dst_offset: 0, name: "+0330" },
    );
    let rest = lemma_push_transition(
        rest,
        1111437000i64,
        FixedTimespan { utc_offset: 12600, dst_offset: 3600, name: "+0430" },
    );
    let rest = lemma_push_transition(
        rest,
        1127331000i64,
        FixedTimespan { utc_offset: 12600, dst_offset: 0, name: "+0330" },
    );
    let rest = lemma_push_transition(
        rest,
        1206045000i64,
        FixedTimespan { utc_offset: 12600, dst_offset: 3600, name: "+0430" },
    );
    let rest = lemma_push_transition(
        rest,
        1221939000i64,
        FixedTimespan { utc_offset: 12600, dst_offset: 0, name: "+0330" },
    );
    let rest = lemma_push_transition(
        rest,
        1237667400i64,
        FixedTimespan { utc_offset: 12600, dst_offset: 3600, name: "+0430" },
    );
    let rest = lemma_push_transition(
        rest,
        1253561400i64,
        FixedTimespan { utc_offset: 12600, dst_offset: 0, name: "+0330" },
    );
    let rest = lemma_push_transition(
        rest,
        1269203400i64,
        FixedTimespan { utc_offset: 12600, dst_offset: 3600, name: "+0430" },
    );
    let rest = lemma_push_transition(
        rest,
        1285097400i64,
        FixedTimespan { utc_offset: 12600, dst_offset: 0, name: "+0330" },
    );
    let rest = lemma_push_transition(
        rest,
        1300739400i64,
        FixedTimespan { utc_offset: 12600, dst_offset: 3600, name: "+0430" },
    );
    let rest = lemma_push_transition(
        rest,
        1316633400i64,
        FixedTimespan { utc_offset: 12600, dst_offset: 0, name: "+0330" },
    );
    let rest = lemma_push_transition(
        rest,
        1332275400i64,
        FixedTimespan { utc_offset: 12600, dst_offset: 3600, name: "+0430" },
    );
    let rest = lemma_push_transition(
        rest,
        1348169400i64,
        FixedTimespan { utc_offset: 12600, dst_offset: 0, name: "+0330" },
    );
    let rest = lemma_push_transition(
        rest,
        1363897800i64,
        FixedTimespan { utc_offset: 12600, dst_offset: 3600, name: "+0430" },
    );
    let rest = lemma_push_transition(
        rest,
        1379791800i64,
        FixedTimespan { utc_offset: 12600, dst_offset: 0, name: "+0330" },
    );
    let rest = lemma_push_transition(
        rest,
        1395433800i64,
        FixedTimespan { utc_offset: 12600, dst_offset: 3600, name: "+0430" },
    );
    let rest = lemma_push_transition(
        rest,
        1411327800i64,
        FixedTimespan { utc_offset: 12600, dst_offset: 0, name: "+0330" },
    );
    let rest = lemma_push_transition(
        rest,
        1426969800i64,
        FixedTimespan { utc_offset: 12600, dst_offset: 3600, name: "+0430" },
    );
    let rest = lemma_push_transition(
        rest,
        1442863800i64,
        FixedTimespan { utc_offset: 12600, dst_offset: 0, name: "+0330" },
    );
    let rest = lemma_push_transition(
        rest,
        1458505800i64,
        FixedTimespan { utc_offset: 12600, dst_offset: 3600, name: "+0430" },
    );
    let rest = lemma_push_transition(
        rest,
        1474399800i64,
        FixedTimespan { utc_offset: 12600, dst_offset: 0, name: "+0330" },
    );
    let rest = lemma_push_transition(
        rest,
        1490128200i64,
        FixedTimespan { utc_offset: 12600, dst_offset: 3600, name: "+0430" },
    );
    let rest = lemma_push_transition(
        rest,
        1506022200i64,
        FixedTimespan { utc_offset: 12600, dst_offset: 0, name: "+0330" },
    );
    let rest = lemma_push_transition(
        rest,
        1521664200i64,
        FixedTimespan { utc_offset: 12600, dst_offset: 3600, name: "+0430" },
    );
    let rest = lemma_push_transition(
        rest,
        1537558200i64,
        FixedTimespan { utc_offset: 12600, dst_offset: 0, name: "+0330" },
    );
    let rest = lemma_push_transition(
        rest,
        1553200200i64,
        FixedTimespan { utc_offset: 12600, dst_offset: 3600, name: "+0430" },
    );
    let rest = lemma_push_transition(
        rest,
        1569094200i64,
        FixedTimespan { utc_offset: 12600, dst_offset: 0, name: "+0330" },
    );
    let rest = lemma_push_transition(
        rest,
        1584736200i64,
        FixedTimespan { utc_offset: 12600, dst_offset: 3600, name: "+0430" },
    );
    let rest = lemma_push_transition(
        rest,
        1600630200i64,
        FixedTimespan { utc_offset: 12600, dst_offset: 0, name: "+0330" },
    );
    let rest = lemma_push_transition(
        rest,
        1616358600i64,
        FixedTimespan { utc_offset: 12600, dst_offset: 3600, name: "+0430" },
    );
    let rest = lemma_push_transition(
        rest,
        1632252600i64,
        FixedTimespan { utc_offset: 12600, dst_offset: 0, name: "+0330" },
    );
    let rest = lemma_push_transition(
        rest,
        1647894600i64,
        FixedTimespan { utc_offset: 12600, dst_offset: 3600, name: "+0430" },
    );
    let rest = lemma_push_transition(
        rest,
        1663788600i64,
        FixedTimespan { utc_offset: 12600, dst_offset: 0, name: "+0330" },
    );
}

/// The spans of `Asia/Tehran`.
pub fn asia_tehran() -> (r: FixedTimespanSet)
    ensures
        r@ == asia_tehran_table(),
        r@.wf(),
{
    let mut rest: Vec<(i64, FixedTimespan)> = Vec::new();
    rest.push((-1704165944, FixedTimespan { utc_offset: 12344, dst_offset: 0, name: "TMT" }));
    rest.push((-1090466744, FixedTimespan { utc_offset: 12600, dst_offset: 0, name: "+0330" }));
    rest.push((227820600, FixedTimespan { utc_offset: 12600, dst_offset: 3600, name: "+0430" }));
    rest.push((246223800, FixedTimespan { utc_offset: 14400, dst_offset: 0, name: "+04" }));
    rest.push((259617600, FixedTimespan { utc_offset: 14400, dst_offset: 3600, name: "+05" }));
    rest.push((271108800, FixedTimespan { utc_offset: 14400, dst_offset: 0, name: "+04" }));
    rest.push((279576000, FixedTimespan { utc_offset: 12600, dst_offset: 0, name: "+0330" }));
    rest.push((296598600, FixedTimespan { utc_offset: 12600, dst_offset: 3600, name: "+0430" }));
    rest.push((306531000, FixedTimespan { utc_offset: 12600, dst_offset: 0, name: "+0330" }));
    rest.push((322432200, FixedTimespan { utc_offset: 12600, dst_offset: 3600, name: "+0430" }));
    rest.push((338499000, FixedTimespan { utc_offset: 12600, dst_offset: 0, name: "+0330" }));
    rest.push((673216200, FixedTimespan { utc_offset: 12600, dst_offset: 3600, name: "+0430" }));
    rest.push((685481400, FixedTimespan { utc_offset: 12600, dst_offset: 0, name: "+0330" }));
    rest.push((701209800, FixedTimespan { utc_offset: 12600, dst_offset: 3600, name: "+0430" }));
    rest.push((717103800, FixedTimespan { utc_offset: 12600, dst_offset: 0, name: "+0330" }));
    rest.push((732745800, FixedTimespan { utc_offset: 12600, dst_offset: 3600, name: "+0430" }));
    rest.push((748639800, FixedTimespan { utc_offset: 12600, dst_offset: 0, name: "+0330" }));
    rest.push((764281800, FixedTimespan { utc_offset: 12600, dst_offset: 3600, name: "+0430" }));
    rest.push((780175800, FixedTimespan { utc_offset: 12600, dst_offset: 0, name: "+0330" }));
    rest.push((795817800, FixedTimespan { utc_offset: 12600, dst_offset: 3600, name: "+0430" }));
    rest.push((811711800, FixedTimespan { utc_offset: 12600, dst_offset: 0, name: "+0330" }));
    rest.push((827353800, FixedTimespan { utc_offset: 12600, dst_offset: 3600, name: "+0430" }));
    rest.push((843247800, FixedTimespan { utc_offset: 12600, dst_offset: 0, name: "+0330" }));
    rest.push((858976200, FixedTimespan { utc_offset: 12600, dst_offset: 3600, name: "+0430" }));
    rest.push((874870200, FixedTimespan { utc_offset: 12600, dst_offset: 0, name: "+0330" }));
    rest.push((890512200, FixedTimespan { utc_offset: 12600, dst_offset: 3600, name: "+0430" }));
    rest.push((906406200, FixedTimespan { utc_offset: 12600, dst_offset: 0, name: "+0330" }));
    rest.push((922048200, FixedTimespan { utc_offset: 12600, dst_offset: 3600, name: "+0430" }));
    rest.push((937942200, FixedTimespan { utc_offset: 12600, dst_offset: 0, name: "+0330" }));
    rest.push((953584200, FixedTimespan { utc_offset: 12600, dst_offset: 3600, name: "+0430" }));
    rest.push((969478200, FixedTimespan { utc_offset: 12600, dst_offset: 0, name: "+0330" }));
    rest.push((985206600, FixedTimespan { utc_offset: 12600, dst_offset: 3600, name: "+0430" }));
    rest.push((1001100600, FixedTimespan { utc_offset: 12600, dst_offset: 0, name: "+0330" }));
    rest.push((1016742600, FixedTimespan { utc_offset: 12600, dst_offset: 3600, name: "+0430" }));
    rest.push((1032636600, FixedTimespan { utc_offset: 12600, dst_offset: 0, name: "+0330" }));
    rest.push((1048278600, FixedTimespan { utc_offset: 12600, dst_offset: 3600, name: "+0430" }));
    rest.push((1064172600, FixedTimespan { utc_offset: 12600, dst_offset: 0, name: "+0330" }));
    rest.push((1079814600, FixedTimespan { utc_offset: 12600, dst_offset: 3600, name: "+0430" }));
    rest.push((1095708600, FixedTimespan { utc_offset: 12600, dst_offset: 0, name: "+0330" }));
    rest.push((1111437000, FixedTimespan { utc_offset: 12600, dst_offset: 3600, name: "+0430" }));
    rest.push((1127331000, FixedTimespan { utc_offset: 12600, dst_offset: 0, name: "+0330" }));
    rest.push((1206045000, FixedTimespan { utc_offset: 12600, dst_offset: 3600, name: "+0430" }));
    rest.push((1221939000, FixedTimespan { utc_offset: 12600, dst_offset: 0, name: "+0330" }));
    rest.push((1237667400, FixedTimespan { utc_offset: 12600, dst_offset: 3600, name: "+0430" }));
    rest.push((1253561400, FixedTimespan { utc_offset: 12600, dst_offset: 0, name: "+0330" }));
    rest.push((1269203400, FixedTimespan { utc_offset: 12600, dst_offset: 3600, name: "+0430" }));
    rest.push((1285097400, FixedTimespan { utc_offset: 12600, dst_offset: 0, name: "+0330" }));
    rest.push((1300739400, FixedTimespan { utc_offset: 12600, dst_offset: 3600, name: "+0430" }));
    rest.push((1316633400, FixedTimespan { utc_offset: 12600, dst_offset: 0, name: "+0330" }));
    rest.push((1332275400, FixedTimespan { utc_offset: 12600, dst_offset: 3600, name: "+0430" }));
    rest.push((1348169400, FixedTimespan { utc_offset: 12600, dst_offset: 0, name: "+0330" }));
    rest.push((1363897800, FixedTimespan { utc_offset: 12600, dst_offset: 3600, name: "+0430" }));
    rest.push((1379791800, FixedTimespan { utc_offset: 12600, dst_offset: 0, name: "+0330" }));
    rest.push((1395433800, FixedTimespan { utc_offset: 12600, dst_offset: 3600, name: "+0430" }));
    rest.push((1411327800, FixedTimespan { utc_offset: 12600, dst_offset: 0, name: "+0330" }));
    rest.push((1426969800, FixedTimespan { utc_offset: 12600, dst_offset: 3600, name: "+0430" }));
    rest.push((1442863800, FixedTimespan { utc_offset: 12600, dst_offset: 0, name: "+0330" }));
    rest.push((1458505800, FixedTimespan { utc_offset: 12600, dst_offset: 3600, name: "+0430" }));
    rest.push((1474399800, FixedTimespan { utc_offset: 12600, dst_offset: 0, name: "+0330" }));
    rest.push((1490128200, FixedTimespan { utc_offset: 12600, dst_offset: 3600, name: "+0430" }));
    rest.push((1506022200, FixedTimespan { utc_offset: 12600, dst_offset: 0, name: "+0330" }));
    rest.push((1521664200, FixedTimespan { utc_offset: 12600, dst_offset: 3600, name: "+0430" }));
    rest.push((1537558200, FixedTimespan { utc_offset: 12600, dst_offset: 0, name: "+0330" }));
    rest.push((1553200200, FixedTimespan { utc_offset: 12600, dst_offset: 3600, name: "+0430" }));
    rest.push((1569094200, FixedTimespan { utc_offset: 12600, dst_offset: 0, name: "+0330" }));
    rest.push((1584736200, FixedTimespan { utc_offset: 12600, dst_offset: 3600, name: "+0430" }));
    rest.push((1600630200, FixedTimespan { utc_offset: 12600, dst_offset: 0, name: "+0330" }));
    rest.push((1616358600, FixedTimespan { utc_offset: 12600, dst_offset: 3600, name: "+0430" }));
    rest.push((1632252600, FixedTimespan { utc_offset: 12600, dst_offset: 0, name: "+0330" }));
    rest.push((1647894600, FixedTimespan { utc_offset: 12600, dst_offset: 3600, name: "+0430" }));
    rest.push((1663788600, FixedTimespan { utc_offset: 12600, dst_offset: 0, name: "+0330" }));
    proof {
        lemma_asia_tehran_wf();
    }
    FixedTimespanSet {
        first: FixedTimespan { utc_offset: 12344, dst_offset: 0, name: "LMT" },
        rest,
    }
}

/// The spans of `Asia/Tokyo`.
pub open spec fn asia_tokyo_table() -> SpanTable {
    SpanTable {
        first: FixedTimespan { utc_offset: 33539, dst_offset: 0, name: "LMT" },
        rest: Seq::empty().push(
            (-2587712400i64, FixedTimespan { utc_offset: 32400, dst_offset: 0, name: "JST" }),
        ).push(
            (-683802000i64, FixedTimespan { utc_offset: 32400, dst_offset: 3600, name: "JDT" }),
        ).push(
            (-672310800i64, FixedTimespan { utc_offset: 32400, dst_offset: 0, name: "JST" }),
        ).push(
            (-654771600i64, FixedTimespan { utc_offset: 32400, dst_offset: 3600, name: "JDT" }),
        ).push(
            (-640861200i64, FixedTimespan { utc_offset: 32400, dst_offset: 0, name: "JST" }),
        ).push(
            (-620298000i64, FixedTimespan { utc_offset: 32400, dst_offset: 3600, name: "JDT" }),
        ).push(
            (-609411600i64, FixedTimespan { utc_offset: 32400, dst_offset: 0, name: "JST" }),
        ).push(
            (-588848400i64, FixedTimespan { utc_offset: 32400, dst_offset: 3600, name: "JDT" }),
        ).push(
            (-577962000i64, FixedTimespan { utc_offset: 32400, dst_offset: 0, name: "JST" }),
        ),
    }
}

/// The transitions of `Asia/Tokyo` are strictly increasing, and its offsets
/// are less than a day.
pub proof fn lemma_asia_tokyo_wf()
    ensures
        asia_tokyo_table().wf(),
{
    let rest = Seq::<(i64, FixedTimespan)>::empty();
    let rest = lemma_push_transition(
        rest,
        -2587712400i64,
        FixedTimespan { utc_offset: 32400, dst_offset: 0, name: "JST" },
    );
    let rest = lemma_push_transition(
        rest,
        -683802000i64,
        FixedTimespan { utc_offset: 32400, dst_offset: 3600, name: "JDT" },
    );
    let rest = lemma_push_transition(
        rest,
        -672310800i64,
        FixedTimespan { utc_offset: 32400, dst_offset: 0, name: "JST" },
    );
    let rest = lemma_push_transition(
        rest,
        -654771600i64,
        FixedTimespan { utc_offset: 32400, dst_offset: 3600, name: "JDT" },
    );
    let rest = lemma_push_transition(
        rest,
        -640861200i64,
        FixedTimespan { utc_offset: 32400, dst_offset: 0, name: "JST" },
    );
    let rest = lemma_push_transition(
        rest,
        -620298000i64,
        FixedTimespan { utc_offset: 32400, dst_offset: 3600, name: "JDT" },
    );
    let rest = lemma_push_transition(
        rest,
        -609411600i64,
        FixedTimespan { utc_offset: 32400, dst_offset: 0, name: "JST" },
    );
    let rest = lemma_push_transition(
        rest,
        -588848400i64,
        FixedTimespan { utc_offset: 32400, dst_offset: 3600, name: "JDT" },
    );
    let rest = lemma_push_transition(
        rest,
        -577962000i64,
        FixedTimespan { utc_offset: 32400, dst_offset: 0, name: "JST" },
    );
}

/// The spans of `Asia/Tokyo`.
pub fn asia_tokyo() -> (r: FixedTimespanSet)
    ensures
        r@ == asia_tokyo_table(),
        r@.wf(),
{
    let mut rest: Vec<(i64, FixedTimespan)> = Vec::new();
    rest.push((-2587712400, FixedTimespan { utc_offset: 32400, dst_offset: 0, name: "JST" }));
    rest.push((-683802000, FixedTimespan { utc_offset: 32400, dst_offset: 3600, name: "JDT" }));
    rest.push((-672310800, FixedTimespan { utc_offset: 32400, dst_offset: 0, name: "JST" }));
    rest.push((-654771600, FixedTimespan { utc_offset: 32400, dst_offset: 3600, name: "JDT" }));
    rest.push((-640861200, FixedTimespan { utc_offset: 32400, dst_offset: 0, name: "JST" }));
    rest.push((-620298000, FixedTimespan { utc_offset: 32400, dst_offset: 3600, name: "JDT" }));
    rest.push((-609411600, FixedTimespan { utc_offset: 32400, dst_offset: 0, name: "JST" }));
    rest.push((-588848400, FixedTimespan { utc_offset: 32400, dst_offset: 3600, name: "JDT" }));
    rest.push((-577962000, FixedTimespan { utc_offset: 32400, dst_offset: 0, name: "JST" }));
    proof {
        lemma_asia_tokyo_wf();
    }
    FixedTimespanSet {
        first: FixedTimespan { utc_offset: 33539, dst_offset: 0, name: "LMT" },
        rest,
    }
}

} // verus!
