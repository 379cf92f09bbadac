//! How long a throttled answer asks to be left alone.

use vstd::prelude::*;

use crate::text::{
    chars_of, equal_ignoring_case, parse_whole, parts, same, spelled, split, texts, trim, trimmed,
    whole,
};
use crate::timestamp::{Moment, SECOND};

verus! {

/// How long a throttled request waits when a service refuses one without
/// saying how long to leave it: half a minute. This and every wait is in
/// nanoseconds.
pub const DEFAULT_RETRY_AFTER: u64 = 30_000_000_000;

/// The longest wait one header may ask for, so a date read out of a clock that
/// disagrees with ours cannot park the app for days: an hour.
pub const MAX_RETRY_AFTER: u64 = 3_600_000_000_000;

/// The shortest wait worth taking: a header that works out at nothing is still
/// a refusal, and asking again in the same breath is what makes it worse. A
/// second.
pub const MIN_RETRY_AFTER: u64 = 1_000_000_000;

/// `Retry-After` in its other form: an IMF-fixdate, always in GMT.
pub const HTTP_DATE: &'static str = "[weekday repr:short], [day] [month repr:short] [year] [hour]:[minute]:[second] GMT";

/// The seconds since 1970 of the moment in UTC that a text names, read by a
/// format, as `time::PrimitiveDateTime::parse` gives them; `None` where the
/// text is not in that format, or the format is none.
pub uninterp spec fn dated(raw: Seq<char>, format: Seq<char>) -> Option<i64>;

/// `time::PrimitiveDateTime::parse` with the format that
/// `time::format_description::parse_borrowed` reads, taken to be in UTC, and
/// the seconds since 1970 of what it read.
#[verifier::external_body]
fn parse_date(raw: &str, format: &str) -> (r: Option<i64>)
    ensures
        r == dated(raw@, format@),
{
    time::format_description::parse_borrowed::<1>(format)
        .ok()
        .and_then(|items| time::PrimitiveDateTime::parse(raw, &items).ok())
        .map(|when| when.assume_utc().unix_timestamp())
}

/// A wait, kept between the shortest and the longest.
pub open spec fn kept_within(nanos: int) -> u64 {
    if nanos < MIN_RETRY_AFTER {
        MIN_RETRY_AFTER
    } else if nanos > MAX_RETRY_AFTER {
        MAX_RETRY_AFTER
    } else {
        nanos as u64
    }
}

/// The whole seconds a header asks for, with an optional sign in front.
pub open spec fn whole_seconds(raw: Seq<char>) -> Option<int> {
    if raw.len() > 1 && raw[0] == '-' {
        match spelled(raw.skip(1)) {
            Some(n) => Some(-(n as int)),
            None => None,
        }
    } else {
        match whole(raw) {
            Some(n) => Some(n as int),
            None => None,
        }
    }
}

/// The wait a header asks for, once its date has been read: to the nanosecond,
/// from now to the second that the date names.
pub open spec fn wait_said(raw: Seq<char>, when: Option<i64>, now: Moment) -> u64 {
    match whole_seconds(raw) {
        Some(seconds) => kept_within(seconds * SECOND),
        None => match when {
            Some(at) => kept_within(at * SECOND - now.nanos),
            None => DEFAULT_RETRY_AFTER,
        },
    }
}

/// The wait a throttled answer's `Retry-After` asks for.
pub open spec fn retry_said(header: Option<Seq<char>>, now: Moment) -> u64 {
    match header {
        None => DEFAULT_RETRY_AFTER,
        Some(header) => {
            let raw = trimmed(header);
            if raw.len() == 0 {
                DEFAULT_RETRY_AFTER
            } else {
                wait_said(raw, dated(raw, HTTP_DATE@), now)
            }
        },
    }
}

fn digits_only(chars: &Vec<char>, from: usize) -> (r: bool)
    requires
        from <= chars@.len(),
    ensures
        r == (spelled(chars@.skip(from as int)) is Some),
{
    let ghost digits = chars@.skip(from as int);
    let mut i: usize = from;
    proof {
        assert(digits.take(0) =~= Seq::<char>::empty());
    }
    while i < chars.len()
        invariant
            from <= i <= chars@.len(),
            digits == chars@.skip(from as int),
            spelled(digits.take(i - from)) is Some,
        decreases chars@.len() - i,
    {
        proof {
            assert(digits.take(i + 1 - from).drop_last() =~= digits.take(i - from));
            assert(digits.take(i + 1 - from).last() == chars@[i as int]);
        }
        if !('0' <= chars[i] && chars[i] <= '9') {
            proof {
                lemma_not_spelled(digits, i + 1 - from);
            }
            return false;
        }
        i = i + 1;
    }
    proof {
        assert(digits.take(digits.len() as int) =~= digits);
    }
    true
}

proof fn lemma_not_spelled(s: Seq<char>, i: int)
    requires
        0 <= i <= s.len(),
        spelled(s.take(i)) is None,
    ensures
        spelled(s) is None,
    decreases s.len() - i,
{
    if i < s.len() {
        assert(s.take(i + 1).drop_last() =~= s.take(i));
        lemma_not_spelled(s, i + 1);
    } else {
        assert(s.take(i) =~= s);
    }
}

fn clamp(seconds: u64) -> (r: u64)
    ensures
        r == kept_within(seconds * SECOND),
{
    if seconds < 1 {
        MIN_RETRY_AFTER
    } else if seconds > 3_600 {
        MAX_RETRY_AFTER
    } else {
        seconds * 1_000_000_000
    }
}

/// The wait from a moment to the start of a second, kept within bounds.
fn until(now: Moment, seconds: i64) -> (r: u64)
    ensures
        r == kept_within(seconds * SECOND - now.nanos),
{
    let at: i128 = seconds as i128 * 1_000_000_000;
    if now.nanos > at - MIN_RETRY_AFTER as i128 {
        MIN_RETRY_AFTER
    } else if now.nanos < at - MAX_RETRY_AFTER as i128 {
        MAX_RETRY_AFTER
    } else {
        (at - now.nanos) as u64
    }
}

/// The whole seconds a header asks for, kept within bounds.
fn asked_for(raw: &str) -> (r: Option<u64>)
    ensures
        r == match whole_seconds(raw@) {
            Some(seconds) => Some(kept_within(seconds * SECOND)),
            None => None::<u64>,
        },
{
    let chars = chars_of(raw);
    if chars.len() > 1 && chars[0] == '-' {
        return if digits_only(&chars, 1) {
            Some(MIN_RETRY_AFTER)
        } else {
            None
        };
    }
    if let Some(seconds) = parse_whole(raw) {
        return Some(clamp(seconds));
    }
    let from: usize = if chars.len() > 0 && chars[0] == '+' {
        1
    } else {
        0
    };
    proof {
        assert(chars@.skip(0) =~= chars@);
    }
    if from < chars.len() && digits_only(&chars, from) {
        // More seconds than a machine word counts.
        return Some(MAX_RETRY_AFTER);
    }
    None
}

/// The wait a header asks for, once its date has been read: whole seconds, or
/// a date to count forward to. Never less than [`MIN_RETRY_AFTER`], never more
/// than [`MAX_RETRY_AFTER`], and [`DEFAULT_RETRY_AFTER`] where the header is
/// something this cannot read.
#[must_use]
pub fn wait_for(raw: &str, when: Option<i64>, now: Moment) -> (r: u64)
    ensures
        r == wait_said(raw@, when, now),
{
    if let Some(seconds) = asked_for(raw) {
        return seconds;
    }
    match when {
        Some(at) => until(now, at),
        None => DEFAULT_RETRY_AFTER,
    }
}

/// What an optional header says.
pub open spec fn header_said(header: Option<&str>) -> Option<Seq<char>> {
    match header {
        Some(header) => Some(header@),
        None => None,
    }
}

/// The wait a throttled answer asks for: `Retry-After` as whole seconds, or as
/// a date to count forward to, and [`DEFAULT_RETRY_AFTER`] when the header is
/// absent.
#[must_use]
pub fn retry_after(header: Option<&str>, now: Moment) -> (r: u64)
    ensures
        r == retry_said(header_said(header), now),
{
    match header {
        None => DEFAULT_RETRY_AFTER,
        Some(header) => {
            let raw = trim(header);
            if raw.as_str().is_empty() {
                DEFAULT_RETRY_AFTER
            } else {
                wait_for(raw.as_str(), parse_date(raw.as_str(), HTTP_DATE), now)
            }
        },
    }
}

// ---------------------------------------------------------------------------
// The quota clock
// ---------------------------------------------------------------------------

/// The numbers the parts of a clock spell, where each spells one that fits 64
/// bits.
pub open spec fn clock_parts(all: Seq<Seq<char>>) -> Option<Seq<nat>>
    decreases all.len(),
{
    if all.len() == 0 {
        Some(Seq::empty())
    } else {
        match (clock_parts(all.drop_last()), whole(trimmed(all.last()))) {
            (Some(before), Some(n)) if n <= u64::MAX => Some(before.push(n)),
            _ => None,
        }
    }
}

/// A clock's seconds: `hh:mm:ss` or `mm:ss`, and no more than a machine word
/// counts.
pub open spec fn clock_seconds(raw: Seq<char>) -> Option<u64> {
    match clock_parts(parts(trimmed(raw), ':')) {
        Some(all) => if all.len() == 3 {
            Some(capped(all[0] * 3_600 + all[1] * 60 + all[2]))
        } else if all.len() == 2 {
            Some(capped(all[0] * 60 + all[1]))
        } else {
            None
        },
        None => None,
    }
}

pub open spec fn capped(n: nat) -> u64 {
    if n > u64::MAX {
        u64::MAX
    } else {
        n as u64
    }
}

fn numbers(all: &Vec<String>) -> (r: Option<Vec<u64>>)
    ensures
        match r {
            Some(held) => clock_parts(texts(all@)) == Some(held@.map_values(|n: u64| n as nat)),
            None => clock_parts(texts(all@)) is None,
        },
{
    let ghost whole_list = texts(all@);
    let mut out: Vec<u64> = Vec::new();
    let mut i: usize = 0;
    proof {
        assert(whole_list.take(0) =~= Seq::<Seq<char>>::empty());
        assert(out@.map_values(|n: u64| n as nat) =~= Seq::<nat>::empty());
    }
    while i < all.len()
        invariant
            i <= all@.len(),
            whole_list == texts(all@),
            clock_parts(whole_list.take(i as int)) == Some(out@.map_values(|n: u64| n as nat)),
        decreases all@.len() - i,
    {
        proof {
            assert(whole_list.take(i + 1).drop_last() =~= whole_list.take(i as int));
            assert(whole_list.take(i + 1).last() == all@[i as int]@);
        }
        match parse_whole(trim(all[i].as_str()).as_str()) {
            Some(n) => {
                let ghost before = out@;
                out.push(n);
                proof {
                    assert(out@.map_values(|n: u64| n as nat) =~= before.map_values(
                        |n: u64| n as nat,
                    ).push(n as nat));
                }
            },
            None => {
                proof {
                    lemma_no_clock(whole_list, i + 1);
                }
                return None;
            },
        }
        i = i + 1;
    }
    proof {
        assert(whole_list.take(whole_list.len() as int) =~= whole_list);
    }
    Some(out)
}

proof fn lemma_no_clock(all: Seq<Seq<char>>, i: int)
    requires
        0 <= i <= all.len(),
        clock_parts(all.take(i)) is None,
    ensures
        clock_parts(all) is None,
    decreases all.len() - i,
{
    if i < all.len() {
        assert(all.take(i + 1).drop_last() =~= all.take(i));
        lemma_no_clock(all, i + 1);
    } else {
        assert(all.take(i) =~= all);
    }
}

/// `hh:mm:ss` as whole seconds. Resource Graph's quota header is a duration
/// written as a clock, which no other Azure header does.
#[must_use]
pub fn hms_seconds(raw: &str) -> (r: Option<u64>)
    ensures
        r == clock_seconds(raw@),
{
    let all = split(trim(raw).as_str(), ':');
    match numbers(&all) {
        None => None,
        Some(held) => {
            proof {
                assert(held@.map_values(|n: u64| n as nat).len() == held@.len());
            }
            if held.len() == 3 {
                proof {
                    let seen = held@.map_values(|n: u64| n as nat);
                    assert(seen[0] == held@[0] && seen[1] == held@[1] && seen[2] == held@[2]);
                }
                let total: u128 = held[0] as u128 * 3_600 + held[1] as u128 * 60 + held[2] as u128;
                Some(fit(total))
            } else if held.len() == 2 {
                proof {
                    let seen = held@.map_values(|n: u64| n as nat);
                    assert(seen[0] == held@[0] && seen[1] == held@[1]);
                }
                let total: u128 = held[0] as u128 * 60 + held[1] as u128;
                Some(fit(total))
            } else {
                None
            }
        },
    }
}

fn fit(total: u128) -> (r: u64)
    ensures
        r == capped(total as nat),
{
    if total > u64::MAX as u128 {
        u64::MAX
    } else {
        total as u64
    }
}

// ---------------------------------------------------------------------------
// The headers
// ---------------------------------------------------------------------------

/// The first header of that name, whatever its case.
pub open spec fn header_in(headers: Seq<(Seq<char>, Seq<char>)>, name: Seq<char>) -> Option<
    Seq<char>,
>
    decreases headers.len(),
{
    if headers.len() == 0 {
        None
    } else if same(headers[0].0, name) {
        Some(headers[0].1)
    } else {
        header_in(headers.skip(1), name)
    }
}

/// How long a throttled answer with those headers asks to be left alone.
pub open spec fn throttle_said(headers: Seq<(Seq<char>, Seq<char>)>, now: Moment) -> u64 {
    match header_in(headers, "Retry-After"@) {
        Some(header) => retry_said(Some(header), now),
        None => match header_in(headers, "x-ms-user-quota-resets-after"@) {
            Some(clock) => match clock_seconds(clock) {
                Some(seconds) => kept_within(seconds * SECOND),
                None => DEFAULT_RETRY_AFTER,
            },
            None => DEFAULT_RETRY_AFTER,
        },
    }
}

/// The first header of that name, whatever its case.
#[must_use]
pub fn find_header<'a>(headers: &'a Vec<(String, String)>, name: &str) -> (r: Option<&'a str>)
    ensures
        header_said(r) == header_in(crate::filter::pairs(headers@), name@),
{
    let ghost all = crate::filter::pairs(headers@);
    let mut i: usize = 0;
    proof {
        assert(all.skip(0) =~= all);
    }
    while i < headers.len()
        invariant
            i <= headers@.len(),
            all == crate::filter::pairs(headers@),
            header_in(all, name@) == header_in(all.skip(i as int), name@),
        decreases headers@.len() - i,
    {
        proof {
            assert(all.skip(i as int).skip(1) =~= all.skip(i + 1));
            assert(all.skip(i as int)[0] == (headers@[i as int].0@, headers@[i as int].1@));
        }
        if equal_ignoring_case(headers[i].0.as_str(), name) {
            return Some(headers[i].1.as_str());
        }
        i = i + 1;
    }
    None
}

/// How long to leave a throttled answer with those headers alone.
///
/// ARM and a container registry say so in `Retry-After`. Resource Graph does
/// not: it says when the quota window resets, in `x-ms-user-quota-resets-after`
/// and as `hh:mm:ss`. Key Vault says nothing at all and the default applies.
#[must_use]
pub fn wait_of(headers: &Vec<(String, String)>, now: Moment) -> (r: u64)
    ensures
        r == throttle_said(crate::filter::pairs(headers@), now),
{
    if let Some(header) = find_header(headers, "Retry-After") {
        return retry_after(Some(header), now);
    }
    if let Some(clock) = find_header(headers, "x-ms-user-quota-resets-after") {
        if let Some(seconds) = hms_seconds(clock) {
            return clamp(seconds);
        }
    }
    DEFAULT_RETRY_AFTER
}

/// Whatever a service says, the wait is no shorter than the shortest and no
/// longer than the longest.
pub proof fn law_a_wait_is_kept_within_bounds(
    headers: Seq<(Seq<char>, Seq<char>)>,
    header: Option<Seq<char>>,
    now: Moment,
)
    ensures
        MIN_RETRY_AFTER <= throttle_said(headers, now) <= MAX_RETRY_AFTER,
        MIN_RETRY_AFTER <= retry_said(header, now) <= MAX_RETRY_AFTER,
{
}

} // verus!
