//! The layout of an agenda as text: headings by day, one line per event.

use crate::output::{event_views, CalendarEvent, EventView};
use crate::text::{texts, trim_end, trimmed_end};
use crate::time::{render_time, rendered_time, LocalTime};
use colored::Colorize;
use vstd::prelude::*;

verus! {

/// What a piece of agenda text is, so that a terminal can colour it.
#[derive(Debug, Clone, Copy, PartialEq, Eq, Structural)]
pub enum Style {
    Plain,
    Notice,
    Heading,
    Label,
    Title,
}

/// A piece of agenda text.
#[derive(Debug)]
pub struct Piece {
    pub text: String,
    pub style: Style,
}

/// The mathematical content of a [`Piece`].
pub struct PieceView {
    pub text: Seq<char>,
    pub style: Style,
}

impl View for Piece {
    type V = PieceView;

    open spec fn view(&self) -> PieceView {
        PieceView { text: self.text@, style: self.style }
    }
}

/// The contents of a list of pieces.
pub open spec fn piece_views(pieces: Seq<Piece>) -> Seq<PieceView> {
    pieces.map_values(|p: Piece| p@)
}

/// A piece of glue between the styled pieces.
pub open spec fn plain(text: Seq<char>) -> PieceView {
    PieceView { text, style: Style::Plain }
}

/// The text of the pieces, one after another.
pub open spec fn plain_text(pieces: Seq<PieceView>) -> Seq<char>
    decreases pieces.len(),
{
    if pieces.len() == 0 {
        Seq::empty()
    } else {
        plain_text(pieces.drop_last()) + pieces.last().text
    }
}

/// What a time shows as under a pattern, where it can be shown.
pub open spec fn shown(time: LocalTime, pattern: Seq<char>) -> Option<Seq<char>> {
    rendered_time(time.utc_secs as int, time.nanos as int, time.offset_secs as int, pattern)
}

/// The label in front of an event's title: "All day", or the start under
/// the configured pattern.
pub open spec fn label_of(event: EventView, date_format: Seq<char>) -> Option<Seq<char>> {
    if event.all_day {
        Some("All day"@)
    } else {
        shown(event.start_time, date_format)
    }
}

/// The pieces of an event's line: indentation, label, colon, title, line
/// end.
pub open spec fn line_pieces(event: EventView, date_format: Seq<char>) -> Option<Seq<PieceView>> {
    match label_of(event, date_format) {
        Some(label) => Some(
            seq![
                plain("  "@),
                PieceView { text: label, style: Style::Label },
                plain(": "@),
                PieceView { text: event.title, style: Style::Title },
                plain("\n"@),
            ],
        ),
        None => None,
    }
}

/// Whether the event at position `at` falls on another day of the display
/// time zone than the event before it; the first event always does.
pub open spec fn opens_day(events: Seq<EventView>, at: int) -> bool {
    at == 0 || events[at - 1].start_time.local_day() != events[at].start_time.local_day()
}

/// The pieces in front of the line of the event at position `at`: nothing
/// where the day goes on; otherwise the heading of the new day on a line of
/// its own, after an empty line unless it is the first.
pub open spec fn heading_pieces(events: Seq<EventView>, at: int) -> Option<Seq<PieceView>> {
    if !opens_day(events, at) {
        Some(Seq::empty())
    } else {
        match shown(events[at].start_time, "%A, %B %d, %Y"@) {
            Some(heading) => Some(
                (if at > 0 {
                    seq![plain("\n"@)]
                } else {
                    Seq::empty()
                }) + seq![PieceView { text: heading, style: Style::Heading }, plain("\n"@)],
            ),
            None => None,
        }
    }
}

/// The pieces of the first `count` events of an agenda, or `None` where a
/// time among them cannot be shown.
pub open spec fn agenda_pieces(
    events: Seq<EventView>,
    count: int,
    date_format: Seq<char>,
) -> Option<Seq<PieceView>>
    decreases count,
{
    if count <= 0 {
        Some(Seq::empty())
    } else {
        match (
            agenda_pieces(events, count - 1, date_format),
            heading_pieces(events, count - 1),
            line_pieces(events[count - 1], date_format),
        ) {
            (Some(before), Some(heading), Some(line)) => Some(before + heading + line),
            _ => None,
        }
    }
}

/// Once a time cannot be shown, no longer agenda can be laid out either.
proof fn lemma_unshown_stays(events: Seq<EventView>, short: int, long: int, date_format: Seq<char>)
    requires
        short <= long,
        agenda_pieces(events, short, date_format) is None,
    ensures
        agenda_pieces(events, long, date_format) is None,
    decreases long - short,
{
    if short < long {
        lemma_unshown_stays(events, short, long - 1, date_format);
    }
}

fn piece(text: String, style: Style) -> (made: Piece)
    ensures
        made@ == (PieceView { text: text@, style }),
{
    Piece { text, style }
}

fn glue(text: &str) -> (made: Piece)
    ensures
        made@ == plain(text@),
{
    Piece { text: String::from_str(text), style: Style::Plain }
}

/// Lays out the events of an agenda as pieces of text. `None` means that
/// a start cannot be shown under the pattern it is to be shown with.
pub fn lay_out(events: &[CalendarEvent], date_format: &str) -> (laid: Option<Vec<Piece>>)
    ensures
        match laid {
            Some(pieces) => agenda_pieces(
                event_views(events@),
                events.len() as int,
                date_format@,
            ) == Some(piece_views(pieces@)),
            None => agenda_pieces(event_views(events@), events.len() as int, date_format@)
                is None,
        },
{
    let ghost all = event_views(events@);
    let mut pieces: Vec<Piece> = Vec::new();
    let mut i: usize = 0;
    let mut day: i64 = 0;
    assert(piece_views(pieces@) =~= Seq::<PieceView>::empty());
    while i < events.len()
        invariant
            i <= events.len(),
            all == event_views(events@),
            agenda_pieces(all, i as int, date_format@) == Some(piece_views(pieces@)),
            i > 0 ==> day == all[i - 1].start_time.local_day(),
        decreases events.len() - i,
    {
        let event = &events[i];
        let ghost before = piece_views(pieces@);
        let ghost mut heading: Seq<PieceView> = Seq::empty();
        assert(all[i as int] == event@);
        let today = event.start_time.day_number();
        if i == 0 || today != day {
            match render_time(&event.start_time, "%A, %B %d, %Y") {
                Some(text) => {
                    if i > 0 {
                        pieces.push(glue("\n"));
                    }
                    pieces.push(piece(text, Style::Heading));
                    pieces.push(glue("\n"));
                    proof {
                        heading = heading_pieces(all, i as int)->0;
                    }
                },
                None => {
                    proof {
                        assert(heading_pieces(all, i as int) is None);
                        lemma_unshown_stays(all, i + 1, events.len() as int, date_format@);
                    }
                    return None;
                },
            }
        }
        assert(heading_pieces(all, i as int) == Some(heading));
        assert(piece_views(pieces@) =~= before + heading);
        let label = if event.all_day {
            Some(String::from_str("All day"))
        } else {
            render_time(&event.start_time, date_format)
        };
        match label {
            Some(label) => {
                pieces.push(glue("  "));
                pieces.push(piece(label, Style::Label));
                pieces.push(glue(": "));
                pieces.push(piece(event.title.clone(), Style::Title));
                pieces.push(glue("\n"));
                assert(piece_views(pieces@) =~= before + heading + line_pieces(
                    all[i as int],
                    date_format@,
                )->0);
            },
            None => {
                proof {
                    assert(line_pieces(all[i as int], date_format@) is None);
                    lemma_unshown_stays(all, i + 1, events.len() as int, date_format@);
                }
                return None;
            },
        }
        day = today;
        i += 1;
    }
    Some(pieces)
}

/// Writes the pieces one after another, without regard to their styles.
pub fn write_plain(pieces: &Vec<Piece>) -> (text: String)
    ensures
        text@ == plain_text(piece_views(pieces@)),
{
    let mut text = String::new();
    let mut i: usize = 0;
    let ghost all = piece_views(pieces@);
    while i < pieces.len()
        invariant
            i <= pieces.len(),
            all == piece_views(pieces@),
            text@ == plain_text(all.take(i as int)),
        decreases pieces.len() - i,
    {
        assert(all.take(i + 1).drop_last() =~= all.take(i as int));
        assert(all.take(i + 1).last() == pieces@[i as int]@);
        text.append(pieces[i].text.as_str());
        i += 1;
    }
    assert(all.take(i as int) =~= all);
    text
}

/// Colours a notice with colored's `Colorize::bright_yellow`. Whether and
/// how the text is wrapped in colour codes depends on the terminal and the
/// environment, so nothing is claimed of the result.
#[verifier::external_body]
fn paint_notice(text: &str) -> (painted: String) {
    text.bright_yellow().to_string()
}

/// Colours a day heading with colored's `Colorize::bright_blue` and
/// `Colorize::bold`. Nothing is claimed of the result.
#[verifier::external_body]
fn paint_heading(text: &str) -> (painted: String) {
    text.bright_blue().bold().to_string()
}

/// Colours a label with colored's `Colorize::bright_green`. Nothing is
/// claimed of the result.
#[verifier::external_body]
fn paint_label(text: &str) -> (painted: String) {
    text.bright_green().to_string()
}

/// Colours a title with colored's `Colorize::white`. Nothing is claimed of
/// the result.
#[verifier::external_body]
fn paint_title(text: &str) -> (painted: String) {
    text.white().to_string()
}

/// Whether `painted` may be the pieces after colouring: one text for each
/// piece, and the plain pieces as they were.
pub open spec fn is_painting_of(painted: Seq<Seq<char>>, pieces: Seq<PieceView>) -> bool {
    &&& painted.len() == pieces.len()
    &&& forall|i: int|
        0 <= i < pieces.len() && pieces[i].style == Style::Plain ==> #[trigger] painted[i]
            == pieces[i].text
}

/// Colours one piece by its style; a plain piece stays as it is.
pub fn paint_piece(piece: &Piece) -> (painted: String)
    ensures
        piece.style == Style::Plain ==> painted@ == piece.text@,
{
    match piece.style {
        Style::Plain => piece.text.clone(),
        Style::Notice => paint_notice(piece.text.as_str()),
        Style::Heading => paint_heading(piece.text.as_str()),
        Style::Label => paint_label(piece.text.as_str()),
        Style::Title => paint_title(piece.text.as_str()),
    }
}

/// Colours the pieces one by one.
pub fn paint_all(pieces: &Vec<Piece>) -> (painted: Vec<String>)
    ensures
        is_painting_of(texts(painted@), piece_views(pieces@)),
{
    let mut painted: Vec<String> = Vec::new();
    let mut i: usize = 0;
    while i < pieces.len()
        invariant
            i <= pieces.len(),
            painted.len() == i,
            forall|k: int|
                0 <= k < i && pieces@[k].style == Style::Plain ==> #[trigger] painted@[k]@
                    == pieces@[k].text@,
        decreases pieces.len() - i,
    {
        painted.push(paint_piece(&pieces[i]));
        i += 1;
    }
    painted
}

/// The line of an event in a tooltip: a bullet, "All day" or the time of
/// day, and the title.
pub open spec fn bullet_of(event: EventView) -> Option<Seq<char>> {
    if event.all_day {
        Some("\u{2022} All day: "@ + event.title + "\n"@)
    } else {
        match shown(event.start_time, "%H:%M"@) {
            Some(time) => Some("\u{2022} "@ + time + ": "@ + event.title + "\n"@),
            None => None,
        }
    }
}

/// The lines of those among the first `count` events that fall on `day`,
/// in list order.
pub open spec fn day_bullets(events: Seq<EventView>, count: int, day: int) -> Option<Seq<char>>
    decreases count,
{
    if count <= 0 {
        Some(Seq::empty())
    } else {
        match day_bullets(events, count - 1, day) {
            None => None,
            Some(before) => if events[count - 1].start_time.local_day() != day {
                Some(before)
            } else {
                match bullet_of(events[count - 1]) {
                    Some(bullet) => Some(before + bullet),
                    None => None,
                }
            },
        }
    }
}

/// The position of the first event that falls on `day`, or the number of
/// events if none does.
pub open spec fn first_on_day(events: Seq<EventView>, day: int) -> int
    decreases events.len(),
{
    if events.len() == 0 || events[0].start_time.local_day() == day {
        0
    } else {
        1 + first_on_day(events.drop_first(), day)
    }
}

/// The part of a tooltip for one day: the day's name and date, a colon,
/// and the lines of the day's events.
pub open spec fn day_group(events: Seq<EventView>, day: int) -> Option<Seq<char>> {
    let first = first_on_day(events, day);
    if first >= events.len() {
        None
    } else {
        match (
            shown(events[first].start_time, "%A, %B %d"@),
            day_bullets(events, events.len() as int, day),
        ) {
            (Some(heading), Some(bullets)) => Some(heading + ":\n"@ + bullets),
            _ => None,
        }
    }
}

/// The number of days at the front of the list that come before `day`.
pub open spec fn rank(days: Seq<i64>, day: i64) -> int
    decreases days.len(),
{
    if days.len() == 0 || days[0] >= day {
        0
    } else {
        1 + rank(days.drop_first(), day)
    }
}

/// The list of days with `day` put in at its rank, unless it is there
/// already.
pub open spec fn with_day(days: Seq<i64>, day: i64) -> Seq<i64> {
    let at = rank(days, day);
    if at < days.len() && days[at] == day {
        days
    } else {
        days.insert(at, day)
    }
}

/// The days on which the events fall, each once, earliest first.
pub open spec fn days_of(events: Seq<EventView>) -> Seq<i64>
    decreases events.len(),
{
    if events.len() == 0 {
        Seq::empty()
    } else {
        with_day(days_of(events.drop_last()), events.last().start_time.local_day() as i64)
    }
}

/// The parts of a tooltip for the first `count` of the given days, with an
/// empty line between days.
pub open spec fn tooltip_groups(events: Seq<EventView>, days: Seq<i64>, count: int) -> Option<
    Seq<char>,
>
    decreases count,
{
    if count <= 0 {
        Some(Seq::empty())
    } else {
        match (
            tooltip_groups(events, days, count - 1),
            day_group(events, days[count - 1] as int),
        ) {
            (Some(before), Some(group)) => Some(
                before + (if count > 1 {
                    "\n\n"@
                } else {
                    Seq::empty()
                }) + group,
            ),
            _ => None,
        }
    }
}

/// The tooltip of an agenda: its events grouped by day, days in ascending
/// order, without white space at the end. `None` where a start cannot be
/// shown.
pub open spec fn tooltip_text(events: Seq<EventView>) -> Option<Seq<char>> {
    match tooltip_groups(events, days_of(events), days_of(events).len() as int) {
        Some(text) => Some(trimmed_end(text)),
        None => None,
    }
}

/// The days on which the events fall, each once, earliest first.
pub fn distinct_days(events: &[CalendarEvent]) -> (days: Vec<i64>)
    ensures
        days@ == days_of(event_views(events@)),
{
    let ghost all = event_views(events@);
    let mut days: Vec<i64> = Vec::new();
    let mut i: usize = 0;
    assert(all.take(0) =~= Seq::<EventView>::empty());
    while i < events.len()
        invariant
            i <= events.len(),
            all == event_views(events@),
            days@ == days_of(all.take(i as int)),
        decreases events.len() - i,
    {
        let day = events[i].start_time.day_number();
        proof {
            assert(all.take(i + 1).drop_last() =~= all.take(i as int));
            assert(all.take(i + 1).last() == events@[i as int]@);
        }
        let ghost known = days@;
        let mut at: usize = 0;
        proof {
            assert(known.skip(0) =~= known);
        }
        while at < days.len() && days[at] < day
            invariant
                at <= days.len(),
                days@ == known,
                rank(known, day) == at + rank(known.skip(at as int), day),
            decreases days.len() - at,
        {
            assert(known.skip(at as int).drop_first() =~= known.skip(at + 1));
            at += 1;
        }
        if at == days.len() || days[at] != day {
            days.insert(at, day);
        }
        i += 1;
    }
    assert(all.take(i as int) =~= all);
    days
}

fn bullet(event: &CalendarEvent) -> (line: Option<String>)
    ensures
        match line {
            Some(text) => bullet_of(event@) == Some(text@),
            None => bullet_of(event@) is None,
        },
{
    if event.all_day {
        let line = String::from_str("\u{2022} All day: ").concat(event.title.as_str()).concat("\n");
        Some(line)
    } else {
        match render_time(&event.start_time, "%H:%M") {
            Some(time) => {
                let line = String::from_str("\u{2022} ").concat(time.as_str()).concat(": ").concat(
                    event.title.as_str(),
                ).concat("\n");
                Some(line)
            },
            None => None,
        }
    }
}

fn write_day_group(events: &[CalendarEvent], day: i64) -> (group: Option<String>)
    ensures
        match group {
            Some(text) => day_group(event_views(events@), day as int) == Some(text@),
            None => day_group(event_views(events@), day as int) is None,
        },
{
    let ghost all = event_views(events@);
    let mut first: usize = 0;
    assert(all.skip(0) =~= all);
    while first < events.len() && events[first].start_time.day_number() != day
        invariant
            first <= events.len(),
            all == event_views(events@),
            first_on_day(all, day as int) == first + first_on_day(
                all.skip(first as int),
                day as int,
            ),
        decreases events.len() - first,
    {
        assert(all.skip(first as int)[0] == events@[first as int]@);
        assert(all.skip(first as int).drop_first() =~= all.skip(first + 1));
        first += 1;
    }
    if first >= events.len() {
        return None;
    }
    assert(all.skip(first as int)[0] == events@[first as int]@);
    assert(all[first as int] == events@[first as int]@);
    let mut group = match render_time(&events[first].start_time, "%A, %B %d") {
        Some(heading) => heading,
        None => {
            return None;
        },
    };
    let ghost heading = group@;
    group.append(":\n");
    let mut i: usize = 0;
    let ghost mut bullets: Seq<char> = Seq::empty();
    assert(group@ =~= heading + ":\n"@ + bullets);
    while i < events.len()
        invariant
            i <= events.len(),
            all == event_views(events@),
            day_bullets(all, i as int, day as int) == Some(bullets),
            group@ == heading + ":\n"@ + bullets,
        decreases events.len() - i,
    {
        assert(all[i as int] == events@[i as int]@);
        if events[i].start_time.day_number() == day {
            match bullet(&events[i]) {
                Some(line) => {
                    group.append(line.as_str());
                    proof {
                        bullets = bullets + line@;
                    }
                    assert(group@ =~= heading + ":\n"@ + bullets);
                },
                None => {
                    proof {
                        lemma_bullets_stay_unshown(all, i + 1, events.len() as int, day as int);
                    }
                    return None;
                },
            }
        }
        i += 1;
    }
    Some(group)
}

proof fn lemma_bullets_stay_unshown(events: Seq<EventView>, short: int, long: int, day: int)
    requires
        short <= long,
        day_bullets(events, short, day) is None,
    ensures
        day_bullets(events, long, day) is None,
    decreases long - short,
{
    if short < long {
        lemma_bullets_stay_unshown(events, short, long - 1, day);
    }
}

proof fn lemma_groups_stay_unshown(events: Seq<EventView>, days: Seq<i64>, short: int, long: int)
    requires
        short <= long,
        tooltip_groups(events, days, short) is None,
    ensures
        tooltip_groups(events, days, long) is None,
    decreases long - short,
{
    if short < long {
        lemma_groups_stay_unshown(events, days, short, long - 1);
    }
}

/// Writes the tooltip of an agenda: its events grouped by day, days in
/// ascending order. `None` means that a start cannot be shown.
pub fn create_tooltip(events: &[CalendarEvent]) -> (tooltip: Option<String>)
    ensures
        match tooltip {
            Some(text) => tooltip_text(event_views(events@)) == Some(text@),
            None => tooltip_text(event_views(events@)) is None,
        },
{
    let ghost all = event_views(events@);
    let days = distinct_days(events);
    let mut text = String::new();
    let mut i: usize = 0;
    while i < days.len()
        invariant
            i <= days.len(),
            all == event_views(events@),
            days@ == days_of(all),
            tooltip_groups(all, days@, i as int) == Some(text@),
        decreases days.len() - i,
    {
        let ghost before = text@;
        match write_day_group(events, days[i]) {
            Some(group) => {
                if i > 0 {
                    text.append("\n\n");
                }
                text.append(group.as_str());
                assert(text@ =~= before + (if i + 1 > 1 {
                    "\n\n"@
                } else {
                    Seq::empty()
                }) + group@);
            },
            None => {
                proof {
                    lemma_groups_stay_unshown(all, days@, i + 1, days.len() as int);
                }
                return None;
            },
        }
        i += 1;
    }
    Some(trim_end(text.as_str()))
}

/// Whether each day of the list is later than the one before it.
pub open spec fn strictly_ascending(days: Seq<i64>) -> bool {
    forall|i: int, j: int| 0 <= i < j < days.len() ==> days[i] < days[j]
}

proof fn lemma_rank_splits(days: Seq<i64>, day: i64)
    requires
        strictly_ascending(days),
    ensures
        0 <= rank(days, day) <= days.len(),
        forall|i: int| 0 <= i < rank(days, day) ==> days[i] < day,
        forall|i: int| rank(days, day) <= i < days.len() ==> day <= days[i],
    decreases days.len(),
{
    if days.len() == 0 || days[0] >= day {
        assert forall|i: int| 0 <= i < days.len() implies day <= days[i] by {
            if i > 0 {
                assert(days[0] < days[i]);
            }
        }
    } else {
        let rest = days.drop_first();
        assert forall|i: int, j: int| 0 <= i < j < rest.len() implies rest[i] < rest[j] by {
            assert(rest[i] == days[i + 1]);
            assert(rest[j] == days[j + 1]);
        }
        lemma_rank_splits(rest, day);
        assert forall|i: int| 0 <= i < rank(days, day) implies days[i] < day by {
            if i > 0 {
                assert(days[i] == rest[i - 1]);
            }
        }
        assert forall|i: int| rank(days, day) <= i < days.len() implies day <= days[i] by {
            assert(days[i] == rest[i - 1]);
        }
    }
}

proof fn lemma_with_day(days: Seq<i64>, day: i64)
    requires
        strictly_ascending(days),
    ensures
        strictly_ascending(with_day(days, day)),
        forall|other: i64|
            with_day(days, day).contains(other) <==> days.contains(other) || other == day,
{
    lemma_rank_splits(days, day);
    let at = rank(days, day);
    let grown = with_day(days, day);
    if at < days.len() && days[at] == day {
        assert forall|other: i64| grown.contains(other) <==> days.contains(other) || other
            == day by {
            assert(days[at] == day);
        }
    } else {
        assert forall|i: int, j: int| 0 <= i < j < grown.len() implies grown[i] < grown[j] by {
            if j < at {
                assert(grown[i] == days[i] && grown[j] == days[j]);
            } else if j == at {
                assert(grown[i] == days[i]);
            } else if i < at {
                assert(grown[i] == days[i] && grown[j] == days[j - 1]);
            } else if i == at {
                assert(grown[j] == days[j - 1]);
            } else {
                assert(grown[i] == days[i - 1] && grown[j] == days[j - 1]);
            }
        }
        assert forall|other: i64| grown.contains(other) <==> days.contains(other) || other
            == day by {
            if grown.contains(other) {
                let k = choose|k: int| 0 <= k < grown.len() && grown[k] == other;
                if k < at {
                    assert(days[k] == other);
                } else if k > at {
                    assert(days[k - 1] == other);
                }
            }
            if days.contains(other) {
                let k = choose|k: int| 0 <= k < days.len() && days[k] == other;
                if k < at {
                    assert(grown[k] == other);
                } else {
                    assert(grown[k + 1] == other);
                }
            }
            if other == day {
                assert(grown[at] == day);
            }
        }
    }
}

/// The days of an agenda are the days on which its events fall, each
/// once and earliest first.
pub proof fn law_days_of_events(events: Seq<EventView>)
    ensures
        strictly_ascending(days_of(events)),
        forall|day: i64|
            days_of(events).contains(day) <==> exists|i: int|
                0 <= i < events.len() && #[trigger] events[i].start_time.local_day() as i64
                    == day,
    decreases events.len(),
{
    if events.len() > 0 {
        let before = events.drop_last();
        let last = events.last().start_time.local_day() as i64;
        law_days_of_events(before);
        lemma_with_day(days_of(before), last);
        assert forall|day: i64| days_of(events).contains(day) <==> exists|i: int|
            0 <= i < events.len() && #[trigger] events[i].start_time.local_day() as i64
                == day by {
            if days_of(events).contains(day) {
                if day == last {
                    assert(events[events.len() - 1].start_time.local_day() as i64 == day);
                } else {
                    assert(days_of(before).contains(day));
                    let i = choose|i: int|
                        0 <= i < before.len() && #[trigger] before[i].start_time.local_day() as i64
                            == day;
                    assert(events[i] == before[i]);
                }
            }
            if exists|i: int|
                0 <= i < events.len() && #[trigger] events[i].start_time.local_day() as i64
                    == day {
                let i = choose|i: int|
                    0 <= i < events.len() && #[trigger] events[i].start_time.local_day() as i64
                        == day;
                if i < events.len() - 1 {
                    assert(before[i] == events[i]);
                    assert(before[i].start_time.local_day() as i64 == day);
                }
            }
        }
    } else {
        assert(days_of(events) =~= Seq::<i64>::empty());
    }
}

/// A calendar as the provider lists it. Every part may be missing.
#[derive(Debug)]
pub struct CalendarEntry {
    pub id: Option<String>,
    pub summary: Option<String>,
    pub primary: Option<bool>,
}

/// The pieces of the line that lists a calendar: its identifier, its name
/// and a mark if it is the primary calendar, with stand-ins for a missing
/// identifier or name.
pub open spec fn entry_pieces(entry: CalendarEntry) -> Seq<PieceView> {
    seq![
        plain("  "@),
        PieceView {
            text: match entry.id {
                Some(id) => id@,
                None => "unknown"@,
            },
            style: Style::Label,
        },
        plain(": "@),
        plain(
            match entry.summary {
                Some(name) => name@,
                None => "Untitled"@,
            },
        ),
        PieceView {
            text: if entry.primary == Some(true) {
                " (primary)"@
            } else {
                Seq::empty()
            },
            style: Style::Notice,
        },
        plain("\n"@),
    ]
}

/// The pieces of a list of the first `count` calendars, under its heading.
pub open spec fn listing_pieces(entries: Seq<CalendarEntry>, count: int) -> Seq<PieceView>
    decreases count,
{
    if count <= 0 {
        seq![PieceView { text: "Available Calendars:"@, style: Style::Heading }, plain("\n"@)]
    } else {
        listing_pieces(entries, count - 1) + entry_pieces(entries[count - 1])
    }
}

/// Lays out a list of calendars: a heading, then one line per calendar.
pub fn list_entries(entries: &[CalendarEntry]) -> (pieces: Vec<Piece>)
    ensures
        piece_views(pieces@) == listing_pieces(entries@, entries.len() as int),
{
    let mut pieces: Vec<Piece> = Vec::new();
    pieces.push(piece(String::from_str("Available Calendars:"), Style::Heading));
    pieces.push(glue("\n"));
    assert(piece_views(pieces@) =~= listing_pieces(entries@, 0));
    let mut i: usize = 0;
    while i < entries.len()
        invariant
            i <= entries.len(),
            piece_views(pieces@) == listing_pieces(entries@, i as int),
        decreases entries.len() - i,
    {
        let ghost before = piece_views(pieces@);
        let entry = &entries[i];
        let id = match &entry.id {
            Some(id) => id.clone(),
            None => String::from_str("unknown"),
        };
        let name = match &entry.summary {
            Some(name) => name.clone(),
            None => String::from_str("Untitled"),
        };
        let mark = match entry.primary {
            Some(true) => String::from_str(" (primary)"),
            _ => String::new(),
        };
        pieces.push(glue("  "));
        pieces.push(piece(id, Style::Label));
        pieces.push(glue(": "));
        pieces.push(piece(name, Style::Plain));
        pieces.push(piece(mark, Style::Notice));
        pieces.push(glue("\n"));
        assert(piece_views(pieces@) =~= before + entry_pieces(entries@[i as int]));
        i += 1;
    }
    pieces
}

} // verus!
