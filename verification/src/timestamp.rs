//! Moments in time, and how long ago they were: to the second for what is
//! shown, and to the nanosecond for what is waited for.

use vstd::prelude::*;

use crate::text::{decimal, number};

verus! {

/// The seconds since 1970 of the moment that an RFC 3339 text names, as
/// `time::OffsetDateTime::parse` with the `Rfc3339` format and then
/// `OffsetDateTime::unix_timestamp` give them; `None` where the text is not
/// in that format.
pub uninterp spec fn rfc3339_seconds(raw: Seq<char>) -> Option<i64>;

/// `time::OffsetDateTime::parse` with the `Rfc3339` format, and the seconds
/// since 1970 of what it read.
#[verifier::external_body]
fn parse_rfc3339(raw: &str) -> (r: Option<i64>)
    ensures
        r == rfc3339_seconds(raw@),
{
    time::OffsetDateTime::parse(raw, &time::format_description::well_known::Rfc3339)
        .ok()
        .map(|at| at.unix_timestamp())
}

/// The RFC 3339 text of the moment that many seconds after 1970 began, as
/// `time::OffsetDateTime::from_unix_timestamp` and then `format` with the
/// `Rfc3339` format give it; `None` where either gives none.
pub uninterp spec fn rfc3339_text(seconds: i64) -> Option<Seq<char>>;

/// `time::OffsetDateTime::from_unix_timestamp`, and what `format` with the
/// `Rfc3339` format makes of it.
#[verifier::external_body]
fn format_rfc3339(seconds: i64) -> (r: Option<String>)
    ensures
        crate::kube::said(r) == rfc3339_text(seconds),
{
    time::OffsetDateTime::from_unix_timestamp(seconds)
        .ok()
        .and_then(|at| at.format(&time::format_description::well_known::Rfc3339).ok())
}

/// The first second a stamp can name: the start of the year -9999.
pub const EARLIEST: i64 = -377_705_116_800;

/// The last second a stamp can name: the end of the year 9999.
pub const LATEST: i64 = 253_402_300_799;

/// A moment, to the second.
#[derive(Clone, Copy, Debug, PartialEq, Eq, Structural)]
pub struct Timestamp {
    /// The seconds since 1970 began.
    pub seconds: i64,
}

/// How many nanoseconds a second has.
pub const SECOND: u64 = 1_000_000_000;

/// A moment, to the nanosecond.
#[derive(Clone, Copy, Debug, PartialEq, Eq, Structural)]
pub struct Moment {
    /// The nanoseconds since 1970 began.
    pub nanos: i128,
}

impl Moment {
    /// The start of a second.
    #[must_use]
    pub fn of(stamp: Timestamp) -> (r: Self)
        ensures
            r.nanos == stamp.seconds * SECOND,
    {
        Moment { nanos: stamp.seconds as i128 * 1_000_000_000 }
    }
}

/// The seconds from one moment to another.
pub open spec fn seconds_between(from: Timestamp, to: Timestamp) -> int {
    let n = to.seconds - from.seconds;
    if n < i64::MIN {
        i64::MIN as int
    } else if n > i64::MAX {
        i64::MAX as int
    } else {
        n
    }
}

/// How a distance in time reads: `now`, `12s`, `5m`, `3h`, `40d`.
pub open spec fn age_text(seconds: int) -> Seq<char> {
    let n = if seconds < 0 {
        -seconds
    } else {
        seconds
    };
    if n == 0 {
        "now"@
    } else if n < 60 {
        decimal(n as nat) + "s"@
    } else if n < 3_600 {
        decimal((n / 60) as nat) + "m"@
    } else if n < 86_400 {
        decimal((n / 3_600) as nat) + "h"@
    } else {
        decimal((n / 86_400) as nat) + "d"@
    }
}

impl Timestamp {
    /// The moment that many seconds after 1970 began, where the calendar
    /// reaches it.
    #[must_use]
    pub fn from_unix(seconds: i64) -> (r: Option<Self>)
        ensures
            r == if EARLIEST <= seconds <= LATEST {
                Some(Timestamp { seconds })
            } else {
                None::<Timestamp>
            },
    {
        if EARLIEST <= seconds && seconds <= LATEST {
            Some(Timestamp { seconds })
        } else {
            None
        }
    }

    /// The moment an RFC 3339 text names.
    #[must_use]
    pub fn parse(raw: &str) -> (r: Option<Self>)
        ensures
            r == stamp_of(rfc3339_seconds(raw@)),
    {
        Timestamp::from_seconds(parse_rfc3339(raw))
    }

    /// The moment as RFC 3339 writes it, where that can.
    #[must_use]
    pub fn to_rfc3339(self) -> (r: Option<String>)
        ensures
            crate::kube::said(r) == rfc3339_text(self.seconds),
    {
        format_rfc3339(self.seconds)
    }

    /// The moment, where there is one.
    #[must_use]
    pub fn from_seconds(seconds: Option<i64>) -> (r: Option<Self>)
        ensures
            r == stamp_of(seconds),
    {
        match seconds {
            Some(seconds) => Some(Timestamp { seconds }),
            None => None,
        }
    }

    /// The seconds from this moment to another: less than zero when the other
    /// is already past.
    #[must_use]
    pub fn seconds_until(self, other: Timestamp) -> (r: i64)
        ensures
            r == seconds_between(self, other),
    {
        match other.seconds.checked_sub(self.seconds) {
            Some(n) => n,
            None => if other.seconds < self.seconds {
                i64::MIN
            } else {
                i64::MAX
            },
        }
    }

    /// How far off the moment is, either way, in the largest unit that it
    /// fills: `now`, `12s`, `5m`, `3h`, `40d`.
    #[must_use]
    pub fn relative_age(self, now: Timestamp) -> (r: String)
        ensures
            r@ == age_text(seconds_between(now, self)),
    {
        let until: i64 = now.seconds_until(self);
        let n: u64 = if until < 0 {
            (-(until + 1)) as u64 + 1
        } else {
            until as u64
        };
        let mut said: String;
        if n == 0 {
            said = "now".to_owned();
        } else if n < 60 {
            said = number(n);
            said.push_str("s");
        } else if n < 3_600 {
            said = number(n / 60);
            said.push_str("m");
        } else if n < 86_400 {
            said = number(n / 3_600);
            said.push_str("h");
        } else {
            said = number(n / 86_400);
            said.push_str("d");
        }
        said
    }
}

/// The moment, where there is one.
pub open spec fn stamp_of(seconds: Option<i64>) -> Option<Timestamp> {
    match seconds {
        Some(seconds) => Some(Timestamp { seconds }),
        None => None,
    }
}

/// A moment as the number of its second, where it is set.
pub open spec fn stamp_number(stamp: Option<Timestamp>) -> Option<int> {
    match stamp {
        Some(stamp) => Some(stamp.seconds as int),
        None => None,
    }
}

/// The same, counted backwards: the later the moment, the smaller.
pub open spec fn stamp_backwards(stamp: Option<Timestamp>) -> Option<int> {
    match stamp {
        Some(stamp) => Some(-stamp.seconds as int),
        None => None,
    }
}

/// What a cell says of a moment that may not be set.
pub open spec fn age_cell(stamp: Option<Timestamp>, now: Timestamp) -> Seq<char> {
    match stamp {
        Some(stamp) => age_text(seconds_between(now, stamp)),
        None => "—"@,
    }
}

/// What a cell says of a moment: how far off it is, or a dash when it is not
/// set.
#[must_use]
pub fn age(stamp: Option<Timestamp>, now: Timestamp) -> (r: String)
    ensures
        r@ == age_cell(stamp, now),
{
    match stamp {
        Some(stamp) => stamp.relative_age(now),
        None => "—".to_owned(),
    }
}

} // verus!
