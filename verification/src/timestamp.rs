use vstd::prelude::*;
use vstd::relations::{sorted_by, total_ordering};
use vstd::seq_lib::lemma_sorted_unique;
use chrono::{DateTime, TimeDelta, Utc};

verus! {

broadcast use vstd::seq_lib::group_to_multiset_ensures;

/// An instant in UTC: whole seconds since the Unix epoch and the nanoseconds past them,
/// as `chrono::DateTime::timestamp` and `timestamp_subsec_nanos` give them.
#[derive(Debug, Clone, Copy, PartialEq, Eq, Structural)]
pub struct Timestamp {
    pub secs: i64,
    pub nanos: u32,
}

/// Whether `chrono::DateTime::from_timestamp` accepts `t`, so that it stands for a
/// `DateTime<Utc>`.
pub uninterp spec fn chrono_datetime_valid(t: Timestamp) -> bool;

/// The RFC 3339 text that `chrono::DateTime::to_rfc3339` writes for `t`.
pub uninterp spec fn rfc3339_format(t: Timestamp) -> Seq<char>;

/// The instant, in UTC, that `chrono::DateTime::parse_from_rfc3339` reads from `text`;
/// `None` where it refuses the text.
pub uninterp spec fn rfc3339_parse(text: Seq<char>) -> Option<Timestamp>;

/// Whether `t` lies in the years 0 to 9999 with no leap second, where RFC 3339 text
/// written by `chrono` reads back as the same instant.
pub open spec fn in_rfc3339_range(t: Timestamp) -> bool {
    -62167219200 <= t.secs <= 253402300799 && t.nanos < 1_000_000_000
}

/// What a reading of the system clock gives: an instant of `chrono` at or after the Unix
/// epoch, with no leap second.
pub open spec fn clock_reading(t: Timestamp) -> bool {
    chrono_datetime_valid(t) && t.secs >= 0 && t.nanos < 1_000_000_000
}

/// Chronological order: by seconds, then by nanoseconds.
pub open spec fn time_le(a: Timestamp, b: Timestamp) -> bool {
    a.secs < b.secs || (a.secs == b.secs && a.nanos <= b.nanos)
}

pub open spec fn time_le_fn() -> spec_fn(Timestamp, Timestamp) -> bool {
    |a: Timestamp, b: Timestamp| time_le(a, b)
}

/// Strictly later.
pub open spec fn time_after(a: Timestamp, b: Timestamp) -> bool {
    !time_le(a, b)
}

/// The median of `times`: the element at index `len / 2` once they are in chronological
/// order; the Unix epoch when there is none.
pub open spec fn median_spec(times: Seq<Timestamp>) -> Timestamp {
    if times.len() == 0 {
        Timestamp { secs: 0, nanos: 0 }
    } else {
        times.sort_by(time_le_fn())[(times.len() / 2) as int]
    }
}

/// Calls `chrono::Utc::now`.
/// Trusted: the result stands for a `DateTime<Utc>` taken from the system clock as a
/// duration since the Unix epoch, so its seconds are not negative and its nanoseconds
/// are below one second; which instant it is is left to the clock.
#[verifier::external_body]
pub(crate) fn utc_now() -> (res: Timestamp)
    ensures
        clock_reading(res),
{
    let now = Utc::now();
    Timestamp { secs: now.timestamp(), nanos: now.timestamp_subsec_nanos() }
}

/// Calls `chrono::DateTime::from_timestamp(0, 0)`.
/// Trusted: it gives the Unix epoch.
#[verifier::external_body]
pub(crate) fn unix_epoch() -> (res: Timestamp)
    ensures
        res == (Timestamp { secs: 0, nanos: 0 }),
        chrono_datetime_valid(res),
{
    let epoch = DateTime::from_timestamp(0, 0).unwrap();
    Timestamp { secs: epoch.timestamp(), nanos: epoch.timestamp_subsec_nanos() }
}

/// Calls `chrono::DateTime::to_rfc3339` on the `DateTime<Utc>` of `t`.
/// Trusted: the result is `rfc3339_format(t)`; for the years 0 to 9999 without a leap
/// second it is RFC 3339 text that `parse_from_rfc3339` reads back as `t`.
#[verifier::external_body]
pub(crate) fn rfc3339_text(t: Timestamp) -> (res: String)
    requires
        chrono_datetime_valid(t),
    ensures
        res@ == rfc3339_format(t),
        in_rfc3339_range(t) ==> rfc3339_parse(res@) == Some(t),
{
    DateTime::from_timestamp(t.secs, t.nanos).unwrap().to_rfc3339()
}

/// The text that the error of `chrono::DateTime::parse_from_rfc3339` prints for `text`
/// (the kind of the first flaw the parser meets).
pub uninterp spec fn rfc3339_error_text(text: Seq<char>) -> Seq<char>;

/// Calls `chrono::DateTime::parse_from_rfc3339`, then moves the result to UTC, and prints
/// its error.
/// Trusted: it succeeds exactly when `rfc3339_parse(text)` is some instant, and gives that
/// instant, which stands for a `DateTime<Utc>`; the error prints as
/// `rfc3339_error_text(text)`.
#[verifier::external_body]
pub(crate) fn parse_rfc3339(text: &str) -> (res: Result<Timestamp, String>)
    ensures
        res is Ok <==> rfc3339_parse(text@) is Some,
        res matches Ok(t) ==> rfc3339_parse(text@) == Some(t) && chrono_datetime_valid(t),
        res matches Err(msg) ==> msg@ == rfc3339_error_text(text@),
{
    match DateTime::parse_from_rfc3339(text) {
        Ok(parsed) => {
            let utc = parsed.with_timezone(&Utc);
            Ok(Timestamp { secs: utc.timestamp(), nanos: utc.timestamp_subsec_nanos() })
        },
        Err(e) => Err(e.to_string()),
    }
}

/// Calls `chrono::DateTime::checked_add_signed` with `TimeDelta::seconds(seconds)`.
/// Trusted: with no leap second in `t`, `chrono` moves the time of day by whole seconds,
/// keeps the nanoseconds and carries whole days into the date, failing only where that
/// date is out of its range; so the sum exists exactly when `from_timestamp` accepts `t`
/// moved `seconds` later, and is that instant.
#[verifier::external_body]
pub(crate) fn checked_add_seconds(t: Timestamp, seconds: i64) -> (res: Option<Timestamp>)
    requires
        chrono_datetime_valid(t),
        t.nanos < 1_000_000_000,
        -(i64::MAX / 1000) <= seconds <= i64::MAX / 1000,
    ensures
        res is Some <==> (i64::MIN <= t.secs + seconds <= i64::MAX && chrono_datetime_valid(
            Timestamp { secs: (t.secs + seconds) as i64, nanos: t.nanos },
        )),
        res matches Some(later) ==> later.secs == t.secs + seconds && later.nanos == t.nanos
            && chrono_datetime_valid(later),
{
    let start = DateTime::from_timestamp(t.secs, t.nanos).unwrap();
    match start.checked_add_signed(TimeDelta::seconds(seconds)) {
        Some(later) => Some(Timestamp { secs: later.timestamp(), nanos: later.timestamp_subsec_nanos() }),
        None => None,
    }
}

impl Timestamp {
    /// The present instant, read from the system clock.
    pub fn now() -> (res: Timestamp)
        ensures
            clock_reading(res),
    {
        utc_now()
    }

    /// The instant that RFC 3339 `text` stands for, in UTC; `None` where it does not parse.
    pub fn parse(text: &str) -> (res: Option<Timestamp>)
        ensures
            res == rfc3339_parse(text@),
            res matches Some(t) ==> chrono_datetime_valid(t),
    {
        match parse_rfc3339(text) {
            Ok(t) => Some(t),
            Err(_) => None,
        }
    }
}

/// The median does not depend on the order in which the instants come: any rearrangement
/// of `times` has the same median.
pub proof fn lemma_median_order_free(times: Seq<Timestamp>, rearranged: Seq<Timestamp>)
    requires
        rearranged.to_multiset() == times.to_multiset(),
    ensures
        median_spec(rearranged) == median_spec(times),
{
    lemma_time_le_total();
    times.lemma_sort_by_ensures(time_le_fn());
    rearranged.lemma_sort_by_ensures(time_le_fn());
    lemma_sorted_unique(
        times.sort_by(time_le_fn()),
        rearranged.sort_by(time_le_fn()),
        time_le_fn(),
    );
    assert(rearranged.len() == rearranged.to_multiset().len());
    assert(times.len() == times.to_multiset().len());
}

/// The median of instants already in chronological order is the one at index `len / 2`.
pub proof fn lemma_median_of_ordered(times: Seq<Timestamp>)
    requires
        times.len() > 0,
        forall|i: int, j: int| 0 <= i <= j < times.len() ==> time_le(times[i], times[j]),
    ensures
        median_spec(times) == times[(times.len() / 2) as int],
{
    lemma_time_le_total();
    times.lemma_sort_by_ensures(time_le_fn());
    assert(sorted_by(times, time_le_fn()));
    lemma_sorted_unique(times, times.sort_by(time_le_fn()), time_le_fn());
}

/// Whether `a` is strictly later than `b`.
pub fn is_after(a: Timestamp, b: Timestamp) -> (res: bool)
    ensures
        res == time_after(a, b),
{
    a.secs > b.secs || (a.secs == b.secs && a.nanos > b.nanos)
}

proof fn lemma_time_le_total()
    ensures
        total_ordering(time_le_fn()),
{
}

/// Sorts `times` chronologically.
fn sort_timestamps(times: &mut Vec<Timestamp>)
    ensures
        final(times)@.len() == old(times)@.len(),
        final(times)@.to_multiset() == old(times)@.to_multiset(),
        sorted_by(final(times)@, time_le_fn()),
{
    broadcast use vstd::seq_lib::to_multiset_update;
    broadcast use vstd::multiset::group_multiset_axioms;

    let n = times.len();
    let mut i: usize = 1;
    if n == 0 {
        return;
    }
    while i < n
        invariant
            1 <= i <= n,
            n == times@.len(),
            times@.to_multiset() == old(times)@.to_multiset(),
            sorted_by(times@.take(i as int), time_le_fn()),
        decreases n - i,
    {
        let mut j = i;
        proof {
            assert forall|a: int, b: int| 0 <= a < b <= i && a != j && b != j implies time_le(
                times@[a],
                times@[b],
            ) by {
                assert(times@.take(i as int)[a] == times@[a]);
                assert(times@.take(i as int)[b] == times@[b]);
                assert(time_le_fn()(times@.take(i as int)[a], times@.take(i as int)[b]));
            }
        }
        while j > 0 && is_after(times[j - 1], times[j])
            invariant
                0 <= j <= i < n,
                n == times@.len(),
                times@.to_multiset() == old(times)@.to_multiset(),
                forall|a: int, b: int|
                    0 <= a < b <= i && a != j && b != j ==> time_le(times@[a], times@[b]),
                forall|b: int| j < b <= i ==> time_le(times@[j as int], times@[b]),
            decreases j,
        {
            let current = times[j];
            let previous = times[j - 1];
            let ghost before = times@;
            times.set(j, previous);
            times.set(j - 1, current);
            proof {
                assert(times@ == before.update(j as int, previous).update(j - 1, current));
                assert(before.update(j as int, previous)[j - 1] == previous);
            }
            j -= 1;
        }
        proof {
            assert forall|a: int, b: int| 0 <= a < b < i + 1 implies time_le(
                #[trigger] times@.take(i + 1)[a],
                #[trigger] times@.take(i + 1)[b],
            ) by {
                if a == j as int {
                } else if b == j as int {
                    if a < j - 1 {
                        assert(time_le(times@[a], times@[j - 1]));
                    }
                } else {
                }
            }
        }
        i += 1;
    }
    proof {
        assert(times@.take(n as int) =~= times@);
    }
}

/// The median of `times` (see `median_spec`); the Unix epoch where there is none.
pub(crate) fn median_timestamp(times: Vec<Timestamp>) -> (res: Timestamp)
    ensures
        res == median_spec(times@),
        res == (Timestamp { secs: 0, nanos: 0 }) || times@.contains(res),
        (forall|i: int| 0 <= i < times@.len() ==> chrono_datetime_valid(#[trigger] times@[i]))
            ==> chrono_datetime_valid(res),
{
    if times.len() == 0 {
        return unix_epoch();
    }
    let mut sorted = times;
    let ghost unsorted = sorted@;
    sort_timestamps(&mut sorted);
    proof {
        lemma_time_le_total();
        unsorted.lemma_sort_by_ensures(time_le_fn());
        assert(sorted@.to_multiset() == unsorted.sort_by(time_le_fn()).to_multiset());
        lemma_sorted_unique(sorted@, unsorted.sort_by(time_le_fn()), time_le_fn());
        assert(sorted@ == unsorted.sort_by(time_le_fn()));
        let m = (sorted@.len() / 2) as int;
        assert(sorted@.contains(sorted@[m]));
    }
    sorted[sorted.len() / 2]
}

} // verus!
