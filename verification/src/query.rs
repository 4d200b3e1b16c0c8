//! Worked time inside a window, and the windows that a timeframe names.

use crate::timesheet::{EntryView, Timesheet, TimesheetEntry};
use crate::timestamp::{
    chrono_seconds_between, chrono_two_weeks_before, leap_adjust, lemma_key_is_lexicographic,
    local_now, nanos_between, parse_date, parse_timestamp, parsed_date, parsed_timestamp,
    seconds_between, two_weeks_before, Moment, Timestamp, EPOCH_DAYS, MAX_DAYS, MIN_DAYS,
    SECS_PER_DAY,
};
use vstd::prelude::*;

verus! {

/// The clock-in and clock-out moments of an entry: none for an entry that
/// is still open, or whose time texts cannot both be read.
pub open spec fn interval_of(entry: EntryView) -> Option<(Moment, Moment)> {
    if entry.time_out.len() == 0 {
        None
    } else {
        match (parsed_timestamp(entry.time_in), parsed_timestamp(entry.time_out)) {
            (Some(time_in), Some(time_out)) => Some((time_in, time_out)),
            _ => None,
        }
    }
}

/// The whole seconds that the interval from `time_in` to `time_out` shares
/// with the window from `start` to `end`: none where the interval ends
/// before the window starts or starts after it ends; else the distance
/// from the later of the two starts to the earlier of the two ends.
pub open spec fn overlap(time_in: Moment, time_out: Moment, start: Moment, end: Moment) -> Option<
    int,
> {
    if time_out.key() >= start.key() && time_in.key() <= end.key() {
        Some(seconds_between(time_out.earlier_of(end), time_in.later_of(start)))
    } else {
        None
    }
}

/// The whole seconds that an entry adds to the total of a window, where it
/// adds any.
pub open spec fn entry_seconds(entry: EntryView, start: Moment, end: Moment) -> Option<int> {
    match interval_of(entry) {
        Some((time_in, time_out)) => overlap(time_in, time_out, start, end),
        None => None,
    }
}

/// The sum of what the entries of a store add to the total of a window.
pub open spec fn total_seconds(store: Seq<EntryView>, start: Moment, end: Moment) -> int
    decreases store.len(),
{
    if store.len() == 0 {
        0
    } else {
        total_seconds(store.drop_last(), start, end) + match entry_seconds(
            store.last(),
            start,
            end,
        ) {
            Some(seconds) => seconds,
            None => 0,
        }
    }
}

/// The clock-in and clock-out times of an entry as timestamps: none for an
/// entry that is still open, or whose time texts cannot both be read.
pub fn entry_interval(entry: &TimesheetEntry) -> (interval: Option<(Timestamp, Timestamp)>)
    ensures
        match interval {
            Some((time_in, time_out)) => interval_of(entry@) == Some((time_in@, time_out@)),
            None => interval_of(entry@) is None,
        },
{
    if entry.time_out.as_str().is_empty() {
        return None;
    }
    match parse_timestamp(entry.time_in.as_str()) {
        Some(time_in) => match parse_timestamp(entry.time_out.as_str()) {
            Some(time_out) => Some((time_in, time_out)),
            None => None,
        },
        None => None,
    }
}

/// The whole seconds that the interval from `time_in` to `time_out` shares
/// with the window from `start` to `end`, where they meet.
pub fn overlap_seconds(
    time_in: Timestamp,
    time_out: Timestamp,
    start: Timestamp,
    end: Timestamp,
) -> (shared: Option<i64>)
    ensures
        match shared {
            Some(seconds) => overlap(time_in@, time_out@, start@, end@) == Some(seconds as int),
            None => overlap(time_in@, time_out@, start@, end@) is None,
        },
{
    if start.at_or_before(&time_out) && time_in.at_or_before(&end) {
        let from = time_in.later_of(start);
        let until = time_out.earlier_of(end);
        Some(chrono_seconds_between(&until, &from))
    } else {
        None
    }
}

/// The whole seconds that an entry adds to the total of the window from
/// `start` to `end`: none for an entry that is open, cannot be read, or
/// lies outside the window.
pub fn entry_seconds_within_range(entry: &TimesheetEntry, start: Timestamp, end: Timestamp) -> (added:
    Option<i64>)
    ensures
        match added {
            Some(seconds) => entry_seconds(entry@, start@, end@) == Some(seconds as int),
            None => entry_seconds(entry@, start@, end@) is None,
        },
{
    match entry_interval(entry) {
        Some((time_in, time_out)) => overlap_seconds(time_in, time_out, start, end),
        None => None,
    }
}

/// The whole seconds worked inside the window from `start` to `end`: the
/// sum over the entries of the store of what each adds.
pub fn calculate_seconds_within_range(timesheet: &Timesheet, start: Timestamp, end: Timestamp) -> (total:
    i128)
    ensures
        total == total_seconds(timesheet@, start@, end@),
{
    let entries = timesheet.entries();
    let n: usize = entries.len();
    let mut total: i128 = 0;
    let mut i: usize = 0;
    while i < n
        invariant
            n == entries@.len(),
            timesheet@.len() == n,
            forall|k: int| 0 <= k < n ==> timesheet@[k] == (#[trigger] entries@[k])@,
            i <= n,
            total == total_seconds(timesheet@.take(i as int), start@, end@),
            -(i * 0x8000_0000_0000_0000) <= total <= i * 0x8000_0000_0000_0000,
        decreases n - i,
    {
        let added = entry_seconds_within_range(&entries[i], start, end);
        proof {
            let upto = timesheet@.take(i + 1);
            assert(upto.drop_last() =~= timesheet@.take(i as int));
            assert(upto.last() == entries@[i as int]@);
        }
        match added {
            Some(seconds) => {
                total = total + seconds as i128;
            },
            None => {},
        }
        i += 1;
    }
    proof {
        assert(timesheet@.take(n as int) =~= timesheet@);
    }
    total
}

/// Why a timeframe names no window.
#[derive(Debug, Clone, Copy, PartialEq, Eq, Structural)]
pub enum TimeframeError {
    /// The timeframe is neither `two-weeks` nor two fields.
    UnsupportedFormat,
    /// One of the two fields is no `yyyy-mm-dd` date.
    InvalidDate,
}

/// The token that names the two weeks up to now: `two-weeks`.
pub open spec fn two_weeks_token() -> Seq<char> {
    seq!['t', 'w', 'o', '-', 'w', 'e', 'e', 'k', 's']
}

/// The fields of a text that white space separates, in order, as
/// `str::split_whitespace` yields them.
pub uninterp spec fn whitespace_fields(text: Seq<char>) -> Seq<Seq<char>>;

/// The first instant of a day.
pub open spec fn day_start(days: int) -> Moment {
    Moment { days, secs: 0, frac: 0 }
}

/// The last whole second of a day.
pub open spec fn day_end(days: int) -> Moment {
    Moment { days, secs: SECS_PER_DAY - 1, frac: 0 }
}

/// The window between two dates that were read: from the first instant of
/// the first to the last whole second of the second.
pub open spec fn window_of_dates(first: Option<int>, second: Option<int>) -> Result<
    (Moment, Moment),
    TimeframeError,
> {
    match (first, second) {
        (Some(from), Some(until)) => Ok((day_start(from), day_end(until))),
        _ => Err(TimeframeError::InvalidDate),
    }
}

/// The window that the fields of a timeframe name: two fields, each a
/// date.
pub open spec fn window_of_fields(fields: Seq<Seq<char>>) -> Result<
    (Moment, Moment),
    TimeframeError,
> {
    if fields.len() == 2 {
        window_of_dates(parsed_date(fields[0]), parsed_date(fields[1]))
    } else {
        Err(TimeframeError::UnsupportedFormat)
    }
}

/// The window that a timeframe names at the moment `now`: for `two-weeks`
/// the two weeks up to `now`; else the window of its fields.
pub open spec fn resolved_window(timeframe: Seq<char>, now: Moment) -> Result<
    (Moment, Moment),
    TimeframeError,
> {
    if timeframe == two_weeks_token() {
        Ok((two_weeks_before(now), now))
    } else {
        window_of_fields(whitespace_fields(timeframe))
    }
}

/// Whether a window of timestamps is the given window of moments, or an
/// error the given error.
pub open spec fn same_window(
    made: Result<(Timestamp, Timestamp), TimeframeError>,
    wanted: Result<(Moment, Moment), TimeframeError>,
) -> bool {
    match made {
        Ok((start, end)) => wanted == Ok::<(Moment, Moment), TimeframeError>((start@, end@)),
        Err(error) => wanted == Err::<(Moment, Moment), TimeframeError>(error),
    }
}

/// Calls `str::split_whitespace` and collects the fields it yields as
/// owned strings. The contract names the result and claims that the same
/// text always splits the same.
#[verifier::external_body]
fn split_whitespace(text: &str) -> (fields: Vec<String>)
    ensures
        fields@.len() == whitespace_fields(text@).len(),
        forall|i: int|
            0 <= i < fields@.len() ==> (#[trigger] fields@[i])@ == whitespace_fields(text@)[i],
{
    text.split_whitespace().map(str::to_owned).collect()
}

/// The window between two dates, given as day numbers where they were
/// read.
pub fn window_from_dates(first: Option<i32>, second: Option<i32>) -> (window: Result<
    (Timestamp, Timestamp),
    TimeframeError,
>)
    requires
        first matches Some(d) ==> MIN_DAYS <= d <= MAX_DAYS,
        second matches Some(d) ==> MIN_DAYS <= d <= MAX_DAYS,
    ensures
        same_window(
            window,
            window_of_dates(
                match first {
                    Some(d) => Some(d as int),
                    None => None,
                },
                match second {
                    Some(d) => Some(d as int),
                    None => None,
                },
            ),
        ),
{
    match first {
        Some(from) => match second {
            Some(until) => Ok((Timestamp::start_of_day(from), Timestamp::end_of_day(until))),
            None => Err(TimeframeError::InvalidDate),
        },
        None => Err(TimeframeError::InvalidDate),
    }
}

/// The window that the fields of a timeframe name.
pub fn window_from_fields(fields: &Vec<String>) -> (window: Result<
    (Timestamp, Timestamp),
    TimeframeError,
>)
    ensures
        same_window(window, window_of_fields(Seq::new(fields@.len(), |i: int| fields@[i]@))),
{
    proof {
        let texts = Seq::new(fields@.len(), |i: int| fields@[i]@);
        assert(texts.len() == fields@.len());
    }
    if fields.len() == 2 {
        let first = parse_date(fields[0].as_str());
        let second = parse_date(fields[1].as_str());
        window_from_dates(first, second)
    } else {
        Err(TimeframeError::UnsupportedFormat)
    }
}

/// The window that a timeframe names at the moment `now`: `two-weeks`
/// names the two weeks up to `now`; two `yyyy-mm-dd` dates that white
/// space separates name the days from the first to the second, both
/// whole; anything else is an error.
pub fn resolve_timeframe(timeframe: &str, now: Timestamp) -> (window: Result<
    (Timestamp, Timestamp),
    TimeframeError,
>)
    requires
        timeframe@ == two_weeks_token() ==> now@.days - 14 >= MIN_DAYS,
    ensures
        same_window(window, resolved_window(timeframe@, now@)),
{
    proof {
        reveal_strlit("two-weeks");
        assert("two-weeks"@ =~= two_weeks_token());
    }
    if timeframe.to_owned() == String::from_str("two-weeks") {
        Ok((chrono_two_weeks_before(&now), now))
    } else {
        let fields = split_whitespace(timeframe);
        proof {
            assert(Seq::new(fields@.len(), |i: int| fields@[i]@) =~= whitespace_fields(
                timeframe@,
            ));
        }
        window_from_fields(&fields)
    }
}

/// The whole seconds worked inside the window that a timeframe names at
/// the local time of this machine, read when the call is made.
pub fn query_time_range(timesheet: &Timesheet, timeframe: &str) -> (answer: Result<
    i128,
    TimeframeError,
>)
    ensures
        timeframe@ == two_weeks_token() ==> exists|now: Moment|
            {
                &&& now.is_valid()
                &&& now.days >= EPOCH_DAYS - 1
                &&& answer matches Ok(total)
                &&& total == total_seconds(timesheet@, two_weeks_before(now), now)
            },
        timeframe@ != two_weeks_token() ==> match window_of_fields(whitespace_fields(timeframe@)) {
            Ok((start, end)) => answer matches Ok(total) && total == total_seconds(
                timesheet@,
                start,
                end,
            ),
            Err(error) => answer == Err::<i128, TimeframeError>(error),
        },
{
    let now = local_now();
    proof {
        use_type_invariant(&now);
    }
    match resolve_timeframe(timeframe, now) {
        Ok((start, end)) => Ok(calculate_seconds_within_range(timesheet, start, end)),
        Err(error) => Err(error),
    }
}

/// The length of an entry in whole seconds, from its clock-in to its
/// clock-out; zero for an entry that is open or cannot be read.
pub open spec fn duration(entry: EntryView) -> int {
    match interval_of(entry) {
        Some((time_in, time_out)) => seconds_between(time_out, time_in),
        None => 0,
    }
}

/// Whether an entry begins and ends inside the window, its clock-in not
/// after its clock-out.
pub open spec fn lies_inside(entry: EntryView, start: Moment, end: Moment) -> bool {
    interval_of(entry) matches Some((time_in, time_out)) && start.key() <= time_in.key()
        <= time_out.key() <= end.key()
}

/// Whether the first entry ends no later than the second begins.
pub open spec fn ends_before(first: EntryView, second: EntryView) -> bool {
    interval_of(first) matches Some((_, first_out)) && interval_of(second) matches Some(
        (second_in, _),
    ) && first_out.key() <= second_in.key()
}

/// The total of a store that is two stores joined is the sum of their
/// totals.
pub proof fn lemma_total_seconds_joined(
    front: Seq<EntryView>,
    back: Seq<EntryView>,
    start: Moment,
    end: Moment,
)
    ensures
        total_seconds(front + back, start, end) == total_seconds(front, start, end)
            + total_seconds(back, start, end),
    decreases back.len(),
{
    if back.len() == 0 {
        assert(front + back =~= front);
    } else {
        assert((front + back).drop_last() =~= front + back.drop_last());
        assert((front + back).last() == back.last());
        lemma_total_seconds_joined(front, back.drop_last(), start, end);
    }
}

/// The total of a store of one entry is what that entry adds.
pub proof fn lemma_total_seconds_single(entry: EntryView, start: Moment, end: Moment)
    ensures
        total_seconds(seq![entry], start, end) == match entry_seconds(entry, start, end) {
            Some(seconds) => seconds,
            None => 0,
        },
{
    assert(seq![entry].drop_last() =~= Seq::<EntryView>::empty());
    assert(total_seconds(Seq::<EntryView>::empty(), start, end) == 0);
}

/// An entry that lies inside the window adds its whole length.
pub proof fn lemma_inside_adds_duration(entry: EntryView, start: Moment, end: Moment)
    requires
        lies_inside(entry, start, end),
    ensures
        entry_seconds(entry, start, end) == Some(duration(entry)),
{
}

/// Two entries that follow one another without meeting, both inside the
/// window: the total of the store that holds them is the sum of their
/// lengths.
pub proof fn lemma_total_of_two_inside(
    first: EntryView,
    second: EntryView,
    start: Moment,
    end: Moment,
)
    requires
        lies_inside(first, start, end),
        lies_inside(second, start, end),
        ends_before(first, second) || ends_before(second, first),
    ensures
        total_seconds(seq![first, second], start, end) == duration(first) + duration(second),
{
    assert(seq![first, second] =~= seq![first] + seq![second]);
    lemma_total_seconds_joined(seq![first], seq![second], start, end);
    lemma_total_seconds_single(first, start, end);
    lemma_total_seconds_single(second, start, end);
    lemma_inside_adds_duration(first, start, end);
    lemma_inside_adds_duration(second, start, end);
}

/// An entry that is still open adds nothing, whatever the window: a store
/// that holds only such an entry has the total zero.
pub proof fn lemma_open_entry_adds_nothing(entry: EntryView, start: Moment, end: Moment)
    requires
        entry.time_out.len() == 0,
    ensures
        entry_seconds(entry, start, end) is None,
        total_seconds(seq![entry], start, end) == 0,
{
    lemma_total_seconds_single(entry, start, end);
}

/// From a moment to one that is not before it, the distance in whole
/// seconds is not negative.
pub proof fn lemma_seconds_between_ordered(end: Moment, start: Moment)
    requires
        end.is_valid(),
        start.is_valid(),
        start.key() <= end.key(),
    ensures
        seconds_between(end, start) >= 0,
{
    lemma_key_is_lexicographic(start, end);
    let day_part: int = (end.days - start.days) * 86_400;
    let whole: int = day_part + (end.secs - start.secs) + leap_adjust(end, start);
    assert(nanos_between(end, start) == whole * 1_000_000_000 + (end.frac - start.frac));
    if end.days > start.days {
        assert(day_part >= 86_400);
        assert(whole >= 0);
        if whole == 0 {
            assert(leap_adjust(end, start) != -1);
        }
    }
    assert(nanos_between(end, start) > -1_000_000_000);
}

/// An entry whose clock-in is not after its clock-out never adds a
/// negative count to a window whose start is not after its end.
pub proof fn lemma_overlap_not_negative(
    time_in: Moment,
    time_out: Moment,
    start: Moment,
    end: Moment,
)
    requires
        time_in.is_valid(),
        time_out.is_valid(),
        start.is_valid(),
        end.is_valid(),
        time_in.key() <= time_out.key(),
        start.key() <= end.key(),
    ensures
        overlap(time_in, time_out, start, end) matches Some(seconds) ==> seconds >= 0,
{
    if overlap(time_in, time_out, start, end) is Some {
        lemma_seconds_between_ordered(time_out.earlier_of(end), time_in.later_of(start));
    }
}

} // verus!
