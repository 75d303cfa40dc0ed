//! From provider records to the agenda: conversion of single records,
//! conversion of what was fetched per calendar, merging, and the cache in
//! front of it all.

use crate::agenda::{
    is_timeline_of, law_cut_is_front, limited, sort_by_start, truncate_events,
};
use crate::auth::AuthManager;
use crate::cache::{cache_key, no_entries, EventCache, MAX_TTL_SECONDS};
use crate::config::{
    enabled_ids, first_with_id, CalendarConfig, CalendarSettings, Config, Settings,
};
use crate::error::{CalendarError, ErrorKind};
use crate::list::{lemma_top_of_reversed, reversed};
use crate::output::{copy_events, event_views, CalendarEvent, EventView};
use crate::text::texts;
use crate::time::{
    instant_after, local_offset_at, local_offset_for_wall_clock, midnight_of, midnight_seconds,
    CivilDate, LocalTime, UtcInstant, DAY_SECONDS, HOUR_SECONDS,
};
use vstd::prelude::*;

verus! {

/// A start or an end as the provider sends it: a date for all-day events, a
/// point in time for the others.
#[derive(Debug, Clone, Copy, PartialEq, Eq, Structural)]
pub struct EventTime {
    pub date: Option<CivilDate>,
    pub date_time: Option<UtcInstant>,
}

/// An event record as the provider sends it. Every part may be missing.
#[derive(Debug, Clone)]
pub struct RawEvent {
    pub id: Option<String>,
    pub summary: Option<String>,
    pub description: Option<String>,
    pub start: Option<EventTime>,
    pub end: Option<EventTime>,
}

/// The start and end of an event in display time.
#[derive(Debug, Clone, Copy, PartialEq, Eq, Structural)]
pub struct Span {
    pub start: LocalTime,
    pub end: LocalTime,
}

impl RawEvent {
    /// The point in time at which the record starts, if it names one.
    pub open spec fn timed_start(&self) -> Option<UtcInstant> {
        match self.start {
            Some(start) => start.date_time,
            None => None,
        }
    }

    /// The date of an all-day record: the start date of a record that names
    /// no point in time as its start.
    pub open spec fn all_day_date(&self) -> Option<CivilDate> {
        match self.start {
            Some(start) => if start.date_time is None {
                start.date
            } else {
                None
            },
            None => None,
        }
    }

    /// The point in time at which the record ends, if it names one.
    pub open spec fn timed_end(&self) -> Option<UtcInstant> {
        match self.end {
            Some(end) => end.date_time,
            None => None,
        }
    }

    /// Whether the record says when it starts, as a point in time or as a
    /// date. A record that does not is no event of the agenda.
    pub open spec fn has_start(&self) -> bool {
        self.timed_start() is Some || self.all_day_date() is Some
    }

    /// Whether the record is sure to convert, whatever the time zone of
    /// the machine: it does not say when it starts and so converts to
    /// nothing, or it starts at a point in time that can be placed.
    pub open spec fn surely_converts(&self) -> bool {
        match self.timed_start() {
            Some(start) => can_place(start, self.timed_end()),
            None => !self.has_start(),
        }
    }

    /// Whether the record is sure not to convert: it starts at a point in
    /// time that cannot be placed.
    pub open spec fn surely_fails(&self) -> bool {
        self.timed_start() matches Some(start) && !can_place(start, self.timed_end())
    }

    /// The identifier shown for the record: empty where the provider sent
    /// none.
    pub open spec fn shown_id(&self) -> Seq<char> {
        match self.id {
            Some(id) => id@,
            None => Seq::empty(),
        }
    }

    /// The title shown for the record: a placeholder where the provider
    /// sent none.
    pub open spec fn shown_title(&self) -> Seq<char> {
        match self.summary {
            Some(summary) => summary@,
            None => "Untitled Event"@,
        }
    }

    /// The description of the record, if any.
    pub open spec fn shown_description(&self) -> Option<Seq<char>> {
        match self.description {
            Some(text) => Some(text@),
            None => None,
        }
    }
}

/// The event that a record becomes once its span is known.
pub open spec fn event_of(
    raw: RawEvent,
    calendar: CalendarSettings,
    span: Span,
    all_day: bool,
) -> EventView {
    EventView {
        id: raw.shown_id(),
        title: raw.shown_title(),
        description: raw.shown_description(),
        start_time: span.start,
        end_time: span.end,
        calendar_name: calendar.name,
        calendar_color: calendar.color,
        all_day,
    }
}

/// Whether a timed record keeps the end it names: it names one, and that
/// is not before its start.
pub open spec fn keeps_end(start: UtcInstant, end: Option<UtcInstant>) -> bool {
    end matches Some(named) && start.key() <= named.key()
}

/// Whether `span` places a timed record: it starts at the record's start
/// and ends at the record's end, or one hour after the start where the
/// record names no end or one that lies before its start. It never ends
/// before it starts.
pub open spec fn is_timed_span(span: Span, start: UtcInstant, end: Option<UtcInstant>) -> bool {
    &&& span.start.instant() == start
    &&& span.start.offset_in_range()
    &&& span.end.offset_in_range()
    &&& span.start.key() <= span.end.key()
    &&& if keeps_end(start, end) {
        span.end.instant() == end->0
    } else {
        start.is_shifted(HOUR_SECONDS as int, span.end.instant())
    }
}

/// Whether a timed record can be placed: the date library can represent
/// its start and its end, the end being the one it keeps or one hour after
/// the start.
pub open spec fn can_place(start: UtcInstant, end: Option<UtcInstant>) -> bool {
    if keeps_end(start, end) {
        start.representable() && end->0.representable()
    } else {
        start.can_shift(HOUR_SECONDS as int)
    }
}

/// Whether `span` places an all-day record: by the wall clock of the
/// display time zone it runs from midnight at the start of `date` to
/// midnight at the start of the following day, and it does not end before
/// it starts.
pub open spec fn is_all_day_span(span: Span, date: CivilDate) -> bool {
    &&& midnight_of(date.year as int, date.month as int, date.day as int) == Some(
        span.start.wall_clock(),
    )
    &&& span.start.wall_clock() % (DAY_SECONDS as int) == 0
    &&& span.end.wall_clock() == span.start.wall_clock() + DAY_SECONDS
    &&& span.start.key() <= span.end.key()
    &&& span.start.nanos == 0
    &&& span.end.nanos == 0
    &&& span.start.offset_in_range()
    &&& span.end.offset_in_range()
}

/// Whether `event` is what the record `raw` of the calendar `calendar`
/// converts to.
pub open spec fn is_conversion_of(
    event: EventView,
    raw: RawEvent,
    calendar: CalendarSettings,
) -> bool {
    let span = Span { start: event.start_time, end: event.end_time };
    &&& event == event_of(raw, calendar, span, event.all_day)
    &&& match raw.timed_start() {
        Some(start) => !event.all_day && is_timed_span(span, start, raw.timed_end()),
        None => event.all_day && raw.all_day_date() is Some && is_all_day_span(
            span,
            raw.all_day_date()->0,
        ),
    }
}

/// The error for a time that cannot be placed in the display time zone.
pub open spec fn is_unplaced(error: CalendarError) -> bool {
    &&& error.kind() == ErrorKind::Parse
    &&& error.detail() == "Event time cannot be placed in the local time zone"@
}

fn unplaced() -> (error: CalendarError)
    ensures
        is_unplaced(error),
{
    CalendarError::ParseError(
        String::from_str("Event time cannot be placed in the local time zone"),
    )
}

/// One hour after `start`, where the date library can represent both
/// instants.
pub fn default_end(start: UtcInstant) -> (end: Option<UtcInstant>)
    ensures
        end is Some <==> start.can_shift(HOUR_SECONDS as int),
        end matches Some(then) ==> start.is_shifted(HOUR_SECONDS as int, then) && start.key()
            < then.key(),
{
    instant_after(start, HOUR_SECONDS)
}

/// The end of a timed record: the end it names, unless it names none or
/// one that lies before its start; then one hour after the start, where
/// that can be had.
pub fn timed_end(start: UtcInstant, end: Option<UtcInstant>) -> (chosen: Option<UtcInstant>)
    ensures
        keeps_end(start, end) ==> chosen == end,
        !keeps_end(start, end) ==> (chosen is Some <==> start.can_shift(HOUR_SECONDS as int)),
        chosen matches Some(then) ==> start.key() <= then.key() && (!keeps_end(start, end)
            ==> start.is_shifted(HOUR_SECONDS as int, then)),
{
    match end {
        Some(named) => if named.is_before(&start) {
            default_end(start)
        } else {
            Some(named)
        },
        None => default_end(start),
    }
}

/// Whether the parts of a timed span are all there and in order: the end
/// and both offsets are known, and the end is not before the start.
pub open spec fn timed_fits(
    start: UtcInstant,
    end: Option<UtcInstant>,
    start_offset: Option<i32>,
    end_offset: Option<i32>,
) -> bool {
    &&& end is Some
    &&& start_offset is Some
    &&& end_offset is Some
    &&& start.key() <= end->0.key()
}

/// Places a timed record, given its end and the offsets that the display
/// time zone has at its start and at its end. A missing end or offset, or
/// an end before the start, means that the time could not be placed.
pub fn timed_span(
    start: UtcInstant,
    end: Option<UtcInstant>,
    start_offset: Option<i32>,
    end_offset: Option<i32>,
) -> (placed: Result<Span, CalendarError>)
    ensures
        match placed {
            Ok(span) => timed_fits(start, end, start_offset, end_offset) && span == (Span {
                start: LocalTime {
                    utc_secs: start.secs,
                    nanos: start.nanos,
                    offset_secs: start_offset->0,
                },
                end: LocalTime {
                    utc_secs: end->0.secs,
                    nanos: end->0.nanos,
                    offset_secs: end_offset->0,
                },
            }),
            Err(error) => !timed_fits(start, end, start_offset, end_offset) && is_unplaced(
                error,
            ),
        },
{
    match (end, start_offset, end_offset) {
        (Some(end), Some(start_offset), Some(end_offset)) => {
            if end.is_before(&start) {
                return Err(unplaced());
            }
            Ok(
                Span {
                    start: LocalTime {
                        utc_secs: start.secs,
                        nanos: start.nanos,
                        offset_secs: start_offset,
                    },
                    end: LocalTime {
                        utc_secs: end.secs,
                        nanos: end.nanos,
                        offset_secs: end_offset,
                    },
                },
            )
        },
        _ => Err(unplaced()),
    }
}

/// Places an all-day record, given the wall-clock second count of midnight
/// at the start of its date and the offsets that the display time zone has
/// when its wall clock shows that midnight and the next. Anything missing,
/// an instant beyond the range of the clock, or a next midnight that comes
/// before this one, means that the day could not be placed.
pub fn all_day_span(
    midnight: Option<i64>,
    start_offset: Option<i32>,
    end_offset: Option<i32>,
) -> (placed: Result<Span, CalendarError>)
    ensures
        match placed {
            Ok(span) => {
                &&& all_day_fits(midnight, start_offset, end_offset)
                &&& span.start.wall_clock() == midnight->0
                &&& span.end.wall_clock() == midnight->0 + DAY_SECONDS
                &&& span.start.offset_secs == start_offset->0
                &&& span.end.offset_secs == end_offset->0
                &&& span.start.nanos == 0
                &&& span.end.nanos == 0
                &&& span.start.key() <= span.end.key()
            },
            Err(error) => is_unplaced(error) && !all_day_fits(midnight, start_offset, end_offset),
        },
{
    match (midnight, start_offset, end_offset) {
        (Some(midnight), Some(start_offset), Some(end_offset)) => {
            let start_secs = midnight.checked_sub(start_offset as i64);
            let end_secs = match midnight.checked_add(DAY_SECONDS) {
                Some(next) => next.checked_sub(end_offset as i64),
                None => None,
            };
            match (start_secs, end_secs) {
                (Some(start_secs), Some(end_secs)) => {
                    if end_secs < start_secs {
                        return Err(unplaced());
                    }
                    Ok(
                        Span {
                            start: LocalTime {
                                utc_secs: start_secs,
                                nanos: 0,
                                offset_secs: start_offset,
                            },
                            end: LocalTime {
                                utc_secs: end_secs,
                                nanos: 0,
                                offset_secs: end_offset,
                            },
                        },
                    )
                },
                _ => Err(unplaced()),
            }
        },
        _ => Err(unplaced()),
    }
}

/// Whether an all-day record can be placed: midnight and both offsets are
/// known, the instants of both midnights are within the range of the
/// clock, and the next midnight does not come before this one.
pub open spec fn all_day_fits(
    midnight: Option<i64>,
    start_offset: Option<i32>,
    end_offset: Option<i32>,
) -> bool {
    &&& midnight is Some
    &&& start_offset is Some
    &&& end_offset is Some
    &&& i64::MIN <= midnight->0 - start_offset->0 <= i64::MAX
    &&& midnight->0 + DAY_SECONDS <= i64::MAX
    &&& i64::MIN <= midnight->0 + DAY_SECONDS - end_offset->0 <= i64::MAX
    &&& midnight->0 - start_offset->0 <= midnight->0 + DAY_SECONDS - end_offset->0
}

/// Builds the event of a record whose span is known.
pub fn build_event(raw: RawEvent, calendar: &CalendarConfig, span: Span, all_day: bool) -> (event:
    CalendarEvent)
    ensures
        event@ == event_of(raw, calendar@, span, all_day),
{
    let RawEvent { id, summary, description, start: _, end: _ } = raw;
    CalendarEvent {
        id: match id {
            Some(id) => id,
            None => String::new(),
        },
        title: match summary {
            Some(summary) => summary,
            None => String::from_str("Untitled Event"),
        },
        description,
        start_time: span.start,
        end_time: span.end,
        calendar_name: calendar.name.clone(),
        calendar_color: calendar.color.clone(),
        all_day,
    }
}

/// Places a timed record in the display time zone. That succeeds exactly
/// where the record can be placed.
fn place_timed(start: UtcInstant, end: Option<UtcInstant>) -> (placed: Result<Span, CalendarError>)
    ensures
        match placed {
            Ok(span) => is_timed_span(span, start, end),
            Err(error) => is_unplaced(error),
        },
        placed is Ok <==> can_place(start, end),
{
    let end = timed_end(start, end);
    let start_offset = local_offset_at(start.secs, start.nanos);
    let end_offset = match end {
        Some(end) => local_offset_at(end.secs, end.nanos),
        None => None,
    };
    timed_span(start, end, start_offset, end_offset)
}

/// Places an all-day record in the display time zone.
fn place_all_day(date: CivilDate) -> (placed: Result<Span, CalendarError>)
    ensures
        match placed {
            Ok(span) => is_all_day_span(span, date),
            Err(error) => is_unplaced(error),
        },
{
    let midnight = midnight_seconds(date);
    let start_offset = match midnight {
        Some(midnight) => local_offset_for_wall_clock(midnight),
        None => None,
    };
    let end_offset = match midnight {
        Some(midnight) => match midnight.checked_add(DAY_SECONDS) {
            Some(next) => local_offset_for_wall_clock(next),
            None => None,
        },
        None => None,
    };
    all_day_span(midnight, start_offset, end_offset)
}

/// Converts one provider record of the given calendar.
///
/// A record that does not say when it starts is no event: the answer is
/// `Ok(None)`. A start as a point in time takes precedence over a start as
/// a date. An event never ends before it starts: an end that the record
/// names before its start counts as no end.
///
/// A record that starts at a point in time converts exactly where the date
/// library can represent its start and its end. Whether an all-day record
/// converts depends on the time zone of the machine, which must show both
/// midnights once. A record that does not convert gives a parse error.
pub fn convert_event(event: RawEvent, calendar: &CalendarConfig) -> (converted: Result<
    Option<CalendarEvent>,
    CalendarError,
>)
    ensures
        !event.has_start() <==> converted matches Ok(None),
        converted matches Ok(Some(made)) ==> is_conversion_of(made@, event, calendar@)
            && made@.start_time.key() <= made@.end_time.key(),
        converted matches Err(error) ==> is_unplaced(error),
        event.timed_start() matches Some(start) ==> (can_place(start, event.timed_end())
            <==> converted is Ok),
        event.surely_converts() ==> converted is Ok,
        event.surely_fails() ==> converted is Err,
{
    let placed = match event.start {
        None => {
            return Ok(None);
        },
        Some(start) => match start.date_time {
            Some(instant) => {
                let end = match event.end {
                    Some(end) => end.date_time,
                    None => None,
                };
                (place_timed(instant, end), false)
            },
            None => match start.date {
                Some(date) => (place_all_day(date), true),
                None => {
                    return Ok(None);
                },
            },
        },
    };
    match placed {
        (Ok(span), all_day) => Ok(Some(build_event(event, calendar, span, all_day))),
        (Err(error), _) => Err(error),
    }
}

/// The records that say when they start, in list order.
pub open spec fn usable(records: Seq<RawEvent>) -> Seq<RawEvent> {
    records.filter(|r: RawEvent| r.has_start())
}

/// Whether `events` are what the records convert to: one event for each
/// record that says when it starts, in the order of the records.
pub open spec fn are_conversions_of(
    events: Seq<EventView>,
    records: Seq<RawEvent>,
    calendar: CalendarSettings,
) -> bool {
    &&& events.len() == usable(records).len()
    &&& forall|i: int|
        0 <= i < events.len() ==> is_conversion_of(
            #[trigger] events[i],
            usable(records)[i],
            calendar,
        )
}

/// Whether every record is sure to convert.
pub open spec fn all_surely_convert(records: Seq<RawEvent>) -> bool {
    forall|i: int| 0 <= i < records.len() ==> (#[trigger] records[i]).surely_converts()
}

/// Whether some record is sure not to convert.
pub open spec fn some_surely_fails(records: Seq<RawEvent>) -> bool {
    exists|i: int| 0 <= i < records.len() && (#[trigger] records[i]).surely_fails()
}

/// Converts the records of one calendar, dropping those that do not say
/// when they start. The first record that cannot be placed in the display
/// time zone fails the whole list; a list of records that are all sure to
/// convert does convert.
pub fn convert_records(records: Vec<RawEvent>, calendar: &CalendarConfig) -> (converted: Result<
    Vec<CalendarEvent>,
    CalendarError,
>)
    ensures
        converted matches Ok(events) ==> are_conversions_of(
            event_views(events@),
            records@,
            calendar@,
        ),
        converted matches Err(error) ==> is_unplaced(error) && usable(records@).len() > 0,
        all_surely_convert(records@) ==> converted is Ok,
        some_surely_fails(records@) ==> converted is Err,
{
    let ghost all = records@;
    let ghost wanted = |r: RawEvent| r.has_start();
    let mut stack = reversed(records);
    let mut events: Vec<CalendarEvent> = Vec::new();
    proof {
        reveal(Seq::filter);
        assert(all.take(0) =~= Seq::<RawEvent>::empty());
        assert(all.reverse().take(all.len() as int) =~= all.reverse());
    }
    while stack.len() > 0
        invariant
            all == records@,
            wanted == |r: RawEvent| r.has_start(),
            stack.len() <= all.len(),
            stack@ == all.reverse().take(stack.len() as int),
            are_conversions_of(event_views(events@), all.take(all.len() - stack.len()), calendar@),
            forall|i: int| 0 <= i < all.len() - stack.len() ==> !(#[trigger] all[i]).surely_fails(),
        decreases stack.len(),
    {
        let ghost done = all.take(all.len() - stack.len());
        let ghost left = stack.len() as int;
        let ghost events_before = events@;
        let record = stack.pop().unwrap();
        let ghost next = all.take(all.len() - stack.len());
        proof {
            reveal(Seq::filter);
            lemma_top_of_reversed(all, left);
            assert(stack@ =~= all.reverse().take(left - 1));
            assert(next.drop_last() =~= done);
            assert(next.last() == record);
            assert(usable(next) == if record.has_start() {
                usable(done).push(record)
            } else {
                usable(done)
            });
        }
        match convert_event(record, calendar) {
            Ok(Some(event)) => {
                events.push(event);
                assert(event_views(events@) =~= event_views(events_before).push(event@));
            },
            Ok(None) => {},
            Err(error) => {
                proof {
                    all.lemma_filter_take_len(wanted, all.len() - stack.len());
                    assert(!all[all.len() - stack.len() - 1].surely_converts());
                }
                return Err(error);
            },
        }
    }
    assert(all.take(all.len() as int) =~= all);
    Ok(events)
}

/// What the provider answered for one calendar: its records, or the reason
/// why the fetch failed.
#[derive(Debug)]
pub struct CalendarFetch {
    pub calendar_id: String,
    pub outcome: Result<Vec<RawEvent>, String>,
}

/// The events of one calendar after conversion, or why there are none.
#[derive(Debug)]
pub struct CalendarBatch {
    pub calendar_id: String,
    pub converted: Result<Vec<CalendarEvent>, CalendarError>,
}

/// A calendar that is missing from the agenda, and why.
#[derive(Debug)]
pub struct FetchWarning {
    pub calendar_id: String,
    pub error: CalendarError,
}

/// The agenda and the calendars that are missing from it.
#[derive(Debug)]
pub struct Aggregated {
    pub events: Vec<CalendarEvent>,
    pub warnings: Vec<FetchWarning>,
}

/// Whether `error` reports a fetch that failed for the given reason.
pub open spec fn is_fetch_failure(error: CalendarError, reason: Seq<char>) -> bool {
    &&& error.kind() == ErrorKind::Api
    &&& error.detail() == "Failed to fetch events: "@ + reason
}

/// Whether `error` reports that the settings know no calendar with the
/// given identifier.
pub open spec fn is_unknown_calendar(error: CalendarError, id: Seq<char>) -> bool {
    &&& error.kind() == ErrorKind::Config
    &&& error.detail() == "Calendar config not found for ID: "@ + id
}

/// Whether `batch` is what the fetch of one calendar converts to under the
/// given settings. A failed fetch and a calendar unknown to the settings
/// give the matching error; otherwise the records are converted with the
/// name and colour of the first entry with the calendar's identifier, and
/// they do convert where every one of them is sure to.
pub open spec fn is_batch_of(
    batch: CalendarBatch,
    fetch: CalendarFetch,
    settings: Settings,
) -> bool {
    let at = first_with_id(settings.calendars, fetch.calendar_id@);
    &&& batch.calendar_id@ == fetch.calendar_id@
    &&& match fetch.outcome {
        Err(reason) => batch.converted is Err && is_fetch_failure(
            batch.converted->Err_0,
            reason@,
        ),
        Ok(records) => if at >= settings.calendars.len() {
            batch.converted is Err && is_unknown_calendar(
                batch.converted->Err_0,
                fetch.calendar_id@,
            )
        } else {
            &&& match batch.converted {
                Ok(events) => are_conversions_of(
                    event_views(events@),
                    records@,
                    settings.calendars[at],
                ),
                Err(error) => is_unplaced(error) && usable(records@).len() > 0,
            }
            &&& all_surely_convert(records@) ==> batch.converted is Ok
            &&& some_surely_fails(records@) ==> batch.converted is Err
        },
    }
}

/// Whether the batches are what the fetches convert to, one for one.
pub open spec fn are_batches_of(
    batches: Seq<CalendarBatch>,
    fetched: Seq<CalendarFetch>,
    settings: Settings,
) -> bool {
    &&& batches.len() == fetched.len()
    &&& forall|i: int|
        0 <= i < batches.len() ==> is_batch_of(#[trigger] batches[i], fetched[i], settings)
}

/// The events that a batch brings: none where the calendar failed.
pub open spec fn batch_events(batch: CalendarBatch) -> Seq<EventView> {
    match batch.converted {
        Ok(events) => event_views(events@),
        Err(_) => Seq::empty(),
    }
}

/// The events of all batches that succeeded, batch after batch.
pub open spec fn gathered(batches: Seq<CalendarBatch>) -> Seq<EventView>
    decreases batches.len(),
{
    if batches.len() == 0 {
        Seq::empty()
    } else {
        gathered(batches.drop_last()) + batch_events(batches.last())
    }
}

/// The warnings for all batches that failed, batch after batch.
pub open spec fn warnings_of(batches: Seq<CalendarBatch>) -> Seq<FetchWarning>
    decreases batches.len(),
{
    if batches.len() == 0 {
        Seq::empty()
    } else {
        match batches.last().converted {
            Ok(_) => warnings_of(batches.drop_last()),
            Err(error) => warnings_of(batches.drop_last()).push(
                FetchWarning { calendar_id: batches.last().calendar_id, error },
            ),
        }
    }
}

/// Converts what the provider answered for one calendar.
pub fn convert_calendar(config: &Config, fetch: CalendarFetch) -> (batch: CalendarBatch)
    ensures
        is_batch_of(batch, fetch, config@),
{
    let CalendarFetch { calendar_id, outcome } = fetch;
    let converted = match outcome {
        Err(reason) => Err(
            CalendarError::ApiError(
                String::from_str("Failed to fetch events: ").concat(reason.as_str()),
            ),
        ),
        Ok(records) => match config.find_calendar(calendar_id.as_str()) {
            None => Err(
                CalendarError::ConfigError(
                    String::from_str("Calendar config not found for ID: ").concat(
                        calendar_id.as_str(),
                    ),
                ),
            ),
            Some(at) => {
                assert(config@.calendars[at as int] == config.calendars@[at as int]@);
                convert_records(records, &config.calendars[at])
            },
        },
    };
    CalendarBatch { calendar_id, converted }
}

/// Converts what the provider answered, calendar by calendar. A calendar
/// that failed does not stop the others.
pub fn convert_fetched(config: &Config, fetched: Vec<CalendarFetch>) -> (batches: Vec<
    CalendarBatch,
>)
    ensures
        are_batches_of(batches@, fetched@, config@),
{
    let ghost all = fetched@;
    let mut stack = reversed(fetched);
    let mut batches: Vec<CalendarBatch> = Vec::new();
    assert(all.reverse().take(all.len() as int) =~= all.reverse());
    while stack.len() > 0
        invariant
            all == fetched@,
            stack.len() + batches.len() == all.len(),
            stack@ == all.reverse().take(stack.len() as int),
            forall|i: int|
                0 <= i < batches.len() ==> is_batch_of(#[trigger] batches@[i], all[i], config@),
        decreases stack.len(),
    {
        let ghost left = stack.len() as int;
        let fetch = stack.pop().unwrap();
        proof {
            lemma_top_of_reversed(all, left);
            assert(stack@ =~= all.reverse().take(left - 1));
        }
        let batch = convert_calendar(config, fetch);
        batches.push(batch);
    }
    batches
}

/// Merges the batches into one agenda: the events of the calendars that
/// succeeded, earliest start first, events with the same start in batch
/// order; and a warning for each calendar that failed.
pub fn merge_batches(batches: Vec<CalendarBatch>) -> (merged: Aggregated)
    ensures
        is_timeline_of(event_views(merged.events@), gathered(batches@)),
        merged.warnings@ == warnings_of(batches@),
{
    let ghost all = batches@;
    let mut stack = reversed(batches);
    let mut events: Vec<CalendarEvent> = Vec::new();
    let mut warnings: Vec<FetchWarning> = Vec::new();
    proof {
        assert(all.reverse().take(all.len() as int) =~= all.reverse());
        assert(all.take(0) =~= Seq::<CalendarBatch>::empty());
    }
    while stack.len() > 0
        invariant
            all == batches@,
            stack.len() <= all.len(),
            stack@ == all.reverse().take(stack.len() as int),
            event_views(events@) == gathered(all.take(all.len() - stack.len())),
            warnings@ == warnings_of(all.take(all.len() - stack.len())),
        decreases stack.len(),
    {
        let ghost done = all.take(all.len() - stack.len());
        let ghost left = stack.len() as int;
        let ghost events_before = events@;
        let batch = stack.pop().unwrap();
        let ghost next = all.take(all.len() - stack.len());
        proof {
            lemma_top_of_reversed(all, left);
            assert(stack@ =~= all.reverse().take(left - 1));
            assert(next.drop_last() =~= done);
            assert(next.last() == batch);
        }
        let CalendarBatch { calendar_id, converted } = batch;
        match converted {
            Ok(mut more) => {
                let ghost added = more@;
                events.append(&mut more);
                assert(event_views(events@) =~= event_views(events_before) + event_views(added));
            },
            Err(error) => {
                warnings.push(FetchWarning { calendar_id, error });
                assert(event_views(events@) =~= event_views(events_before)
                    + Seq::<EventView>::empty());
            },
        }
    }
    assert(all.take(all.len() as int) =~= all);
    Aggregated { events: sort_by_start(events), warnings }
}

/// What has to be fetched before an agenda can be given: the events of
/// these calendars for this many days from now.
#[derive(Debug)]
pub struct FetchRequest {
    pub calendar_ids: Vec<String>,
    pub days_ahead: i64,
}

/// The answer to a request for the agenda: the agenda itself where the
/// cache holds it, or what to fetch first.
#[derive(Debug)]
pub enum EventsStep {
    Ready(Vec<CalendarEvent>),
    Fetch(FetchRequest),
}

/// Whether `full` and `warnings` are an agenda of what was fetched: the
/// fetches convert to batches of which `full` holds the events, earliest
/// start first and otherwise in fetch order, and `warnings` names the
/// calendars that failed.
pub open spec fn is_agenda_of(
    full: Seq<EventView>,
    warnings: Seq<FetchWarning>,
    fetched: Seq<CalendarFetch>,
    settings: Settings,
) -> bool {
    exists|batches: Seq<CalendarBatch>|
        {
            &&& #[trigger] are_batches_of(batches, fetched, settings)
            &&& is_timeline_of(full, gathered(batches))
            &&& warnings == warnings_of(batches)
        }
}

/// The agenda of the enabled calendars, with a cache in front of the
/// provider.
pub struct CalendarClient {
    config: Config,
    auth_manager: AuthManager,
    cache: EventCache,
}

impl CalendarClient {
    /// The settings the client works from.
    pub closed spec fn settings(&self) -> Settings {
        self.config@
    }

    /// The settings that the client's authentication manager works from.
    pub closed spec fn auth_settings(&self) -> Settings {
        self.auth_manager.settings()
    }

    /// What the cache has been given and not been told to forget, by
    /// request fingerprint.
    pub closed spec fn stored(&self) -> Map<Seq<char>, Seq<EventView>> {
        self.cache.stored()
    }

    /// The number of agendas that the cache was built to hold.
    pub closed spec fn capacity(&self) -> nat {
        self.cache.capacity()
    }

    /// The number of seconds after which the cache lets an agenda expire.
    pub closed spec fn time_to_live(&self) -> nat {
        self.cache.time_to_live()
    }

    /// The fingerprint of a request for `days_ahead` days: the enabled
    /// calendars in configured order and the number of days.
    pub open spec fn request_key(&self, days_ahead: int) -> Seq<char> {
        cache_key(enabled_ids(self.settings().calendars), days_ahead)
    }

    /// Whether the agenda of the next `days_ahead` days, cut to `limit`
    /// events, may be answered from the cache with `events`: the cache has
    /// been given an agenda for this request, and `events` is its front.
    pub open spec fn is_ready_answer(
        &self,
        days_ahead: int,
        limit: Option<usize>,
        events: Seq<EventView>,
    ) -> bool {
        &&& self.stored().contains_key(self.request_key(days_ahead))
        &&& events == limited(self.stored()[self.request_key(days_ahead)], limit)
    }

    /// A client for the given settings, with an empty cache.
    pub fn new(config: Config) -> (client: Self)
        requires
            config.cache.ttl_seconds <= MAX_TTL_SECONDS,
        ensures
            client.settings() == config@,
            client.auth_settings() == config@,
            client.stored() == no_entries(),
            client.capacity() == config.cache.max_entries,
            client.time_to_live() == config.cache.ttl_seconds,
    {
        let auth_manager = AuthManager::new(config.duplicate());
        let cache = EventCache::new(&config.cache);
        CalendarClient { config, auth_manager, cache }
    }

    /// The settings the client works from.
    pub fn config(&self) -> (config: &Config)
        ensures
            config@ == self.settings(),
    {
        &self.config
    }

    /// The authentication manager of the client.
    pub fn auth_manager(&self) -> (manager: &AuthManager)
        ensures
            manager.settings() == self.auth_settings(),
    {
        &self.auth_manager
    }

    /// Asks for the agenda of the next `days_ahead` days, cut to `limit`
    /// events. Where the cache answers, the agenda is ready: the stored
    /// agenda of this request, cut to the limit. Otherwise the answer says
    /// what to fetch: the enabled calendars, in configured order. Nothing
    /// is changed either way.
    pub fn get_events(&self, days_ahead: i64, limit: Option<usize>) -> (step: EventsStep)
        ensures
            match step {
                EventsStep::Ready(events) => self.is_ready_answer(
                    days_ahead as int,
                    limit,
                    event_views(events@),
                ),
                EventsStep::Fetch(request) => {
                    &&& texts(request.calendar_ids@) == enabled_ids(self.settings().calendars)
                    &&& request.days_ahead == days_ahead
                },
            },
            self.capacity() == 0 ==> step is Fetch,
    {
        let calendar_ids = self.config.enabled_calendar_ids();
        let key = self.cache.generate_key(calendar_ids.as_slice(), days_ahead);
        match self.cache.get(key.as_str()) {
            Some(cached) => EventsStep::Ready(truncate_events(cached, limit)),
            None => EventsStep::Fetch(FetchRequest { calendar_ids, days_ahead }),
        }
    }

    /// Merges converted batches into the agenda of the next `days_ahead`
    /// days, stores the whole agenda under the fingerprint of the request
    /// and hands it out cut to `limit` events, with a warning for each
    /// calendar that failed.
    pub fn store_batches(
        &mut self,
        days_ahead: i64,
        limit: Option<usize>,
        batches: Vec<CalendarBatch>,
    ) -> (agenda: Aggregated)
        ensures
            final(self).settings() == old(self).settings(),
            final(self).auth_settings() == old(self).auth_settings(),
            final(self).capacity() == old(self).capacity(),
            final(self).time_to_live() == old(self).time_to_live(),
            final(self).stored().contains_key(old(self).request_key(days_ahead as int)),
            final(self).stored() == old(self).stored().insert(
                old(self).request_key(days_ahead as int),
                final(self).stored()[old(self).request_key(days_ahead as int)],
            ),
            is_timeline_of(
                final(self).stored()[old(self).request_key(days_ahead as int)],
                gathered(batches@),
            ),
            event_views(agenda.events@) == limited(
                final(self).stored()[old(self).request_key(days_ahead as int)],
                limit,
            ),
            agenda.warnings@ == warnings_of(batches@),
    {
        let calendar_ids = self.config.enabled_calendar_ids();
        let key = self.cache.generate_key(calendar_ids.as_slice(), days_ahead);
        let Aggregated { events, warnings } = merge_batches(batches);
        self.cache.set(key, copy_events(&events));
        Aggregated { events: truncate_events(events, limit), warnings }
    }

    /// Converts what was fetched, merges it into the agenda of the next
    /// `days_ahead` days, stores the whole agenda under the fingerprint of
    /// the request and hands it out cut to `limit` events. A calendar that
    /// failed is left out and named in a warning; the rest is still an
    /// agenda.
    pub fn store_fetched(
        &mut self,
        days_ahead: i64,
        limit: Option<usize>,
        fetched: Vec<CalendarFetch>,
    ) -> (agenda: Aggregated)
        ensures
            final(self).settings() == old(self).settings(),
            final(self).auth_settings() == old(self).auth_settings(),
            final(self).capacity() == old(self).capacity(),
            final(self).time_to_live() == old(self).time_to_live(),
            final(self).stored().contains_key(old(self).request_key(days_ahead as int)),
            final(self).stored() == old(self).stored().insert(
                old(self).request_key(days_ahead as int),
                final(self).stored()[old(self).request_key(days_ahead as int)],
            ),
            is_agenda_of(
                final(self).stored()[old(self).request_key(days_ahead as int)],
                agenda.warnings@,
                fetched@,
                old(self).settings(),
            ),
            event_views(agenda.events@) == limited(
                final(self).stored()[old(self).request_key(days_ahead as int)],
                limit,
            ),
    {
        let batches = convert_fetched(&self.config, fetched);
        let ghost converted = batches@;
        let agenda = self.store_batches(days_ahead, limit, batches);
        assert(are_batches_of(converted, fetched@, old(self).settings()));
        agenda
    }

    /// Forgets every cached agenda.
    pub fn clear_cache(&mut self)
        ensures
            final(self).settings() == old(self).settings(),
            final(self).auth_settings() == old(self).auth_settings(),
            final(self).capacity() == old(self).capacity(),
            final(self).time_to_live() == old(self).time_to_live(),
            final(self).stored() == no_entries(),
    {
        self.cache.clear()
    }
}

/// What is gathered from two runs of batches, one after the other, is
/// what is gathered from each, one after the other.
pub proof fn lemma_gathered_distributes(front: Seq<CalendarBatch>, back: Seq<CalendarBatch>)
    ensures
        gathered(front + back) == gathered(front) + gathered(back),
    decreases back.len(),
{
    if back.len() == 0 {
        assert(front + back =~= front);
        assert(gathered(front) + gathered(back) =~= gathered(front));
    } else {
        lemma_gathered_distributes(front, back.drop_last());
        assert((front + back).drop_last() =~= front + back.drop_last());
        assert((front + back).last() == back.last());
        assert(gathered(front + back) =~= gathered(front) + gathered(back));
    }
}

/// A calendar that failed adds nothing to the agenda: the events
/// gathered, and with them the agenda, are those of the other calendars
/// alone.
pub proof fn law_failed_calendar_adds_nothing(batches: Seq<CalendarBatch>, failed: int)
    requires
        0 <= failed < batches.len(),
        batches[failed].converted is Err,
    ensures
        gathered(batches) == gathered(batches.remove(failed)),
        forall|agenda: Seq<EventView>|
            is_timeline_of(agenda, gathered(batches)) <==> is_timeline_of(
                agenda,
                gathered(batches.remove(failed)),
            ),
{
    let front = batches.take(failed);
    let one = seq![batches[failed]];
    let back = batches.skip(failed + 1);
    assert(batches =~= front + one + back);
    assert(batches.remove(failed) =~= front + back);
    lemma_gathered_distributes(front + one, back);
    lemma_gathered_distributes(front, one);
    lemma_gathered_distributes(front, back);
    assert(one.drop_last() =~= Seq::<CalendarBatch>::empty());
    assert(gathered(one.drop_last()) =~= Seq::<EventView>::empty());
    assert(one.last() == batches[failed]);
    assert(gathered(one) =~= Seq::<EventView>::empty());
    assert(gathered(front) + gathered(one) =~= gathered(front));
}

/// A calendar that succeeded brings an event for each of its records that
/// says when it starts; records that do not are dropped.
pub proof fn law_dropped_records_bring_nothing(
    events: Seq<EventView>,
    records: Seq<RawEvent>,
    calendar: CalendarSettings,
)
    requires
        are_conversions_of(events, records, calendar),
    ensures
        events.len() <= records.len(),
        (forall|i: int| 0 <= i < records.len() ==> !(#[trigger] records[i]).has_start())
            ==> events.len() == 0,
{
    let wanted = |r: RawEvent| r.has_start();
    records.lemma_filter_len(wanted);
    if forall|i: int| 0 <= i < records.len() ==> !(#[trigger] records[i]).has_start() {
        if usable(records).len() > 0 {
            let found = usable(records)[0];
            records.lemma_filter_pred(wanted, 0);
            assert(usable(records).contains(found));
            records.lemma_filter_contains_rev(wanted, found);
            let at = choose|at: int| 0 <= at < records.len() && records[at] == found;
            assert(records[at].has_start());
        }
    }
}

/// No converted event ends before it starts. One that keeps no end of its
/// own ends an hour, 3600 seconds, after it starts; an all-day event
/// covers one day of the wall clock, from midnight to midnight.
pub proof fn law_converted_spans(event: EventView, raw: RawEvent, calendar: CalendarSettings)
    requires
        is_conversion_of(event, raw, calendar),
    ensures
        event.start_time.key() <= event.end_time.key(),
        raw.timed_start() matches Some(start) && !keeps_end(start, raw.timed_end())
            ==> event.start_time.key() < event.end_time.key() && event.end_time.utc_secs
            == event.start_time.utc_secs + HOUR_SECONDS,
        raw.timed_start() matches Some(start) && keeps_end(start, raw.timed_end())
            ==> event.end_time.instant() == raw.timed_end()->0,
        event.all_day <==> raw.timed_start() is None,
        event.all_day ==> event.start_time.wall_clock() % (DAY_SECONDS as int) == 0
            && event.end_time.wall_clock() % (DAY_SECONDS as int) == 0
            && event.end_time.wall_clock() - event.start_time.wall_clock() == DAY_SECONDS,
{
}

/// Cutting does not touch the cache: answers from the cache to the same
/// request are equal, an answer with a larger limit or none begins with
/// the answer with a smaller limit, and an answer without a limit is the
/// whole stored agenda.
pub proof fn law_ready_answers_agree(
    client: CalendarClient,
    days_ahead: int,
    small: usize,
    large: Option<usize>,
    first: Seq<EventView>,
    again: Seq<EventView>,
    more: Seq<EventView>,
)
    requires
        large matches Some(n) ==> small <= n,
        client.is_ready_answer(days_ahead, Some(small), first),
        client.is_ready_answer(days_ahead, Some(small), again),
        client.is_ready_answer(days_ahead, large, more),
    ensures
        first == again,
        first.is_prefix_of(more),
        first.len() <= small,
        large is None ==> more == client.stored()[client.request_key(days_ahead)],
        small >= 1 && more.len() >= 1 ==> first.len() >= 1 && first[0] == more[0],
{
    law_cut_is_front(client.stored()[client.request_key(days_ahead)], small, large);
}

} // verus!
