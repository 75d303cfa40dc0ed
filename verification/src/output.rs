//! The normalised event and what is shown of it.

use crate::agenda::limited;
use crate::cli::OutputFormat;
use crate::layout::{
    agenda_pieces, create_tooltip, is_painting_of, lay_out, paint_all, piece_views, plain_text,
    shown, tooltip_text, write_plain, Piece, PieceView, Style,
};
use crate::text::{
    concat, concat_strings, decimal, json_literal, json_string, push_digits, texts, trim_end,
    trimmed_end,
};
use crate::time::{render_time, LocalTime};
use vstd::prelude::*;
use vstd::slice::slice_subrange;

verus! {

/// A calendar event in the form the agenda works with, whatever the
/// provider sent.
#[derive(Debug, Clone, PartialEq, Eq)]
pub struct CalendarEvent {
    pub id: String,
    pub title: String,
    pub description: Option<String>,
    pub start_time: LocalTime,
    pub end_time: LocalTime,
    pub calendar_name: String,
    pub calendar_color: String,
    pub all_day: bool,
}

/// The mathematical content of a [`CalendarEvent`].
pub struct EventView {
    pub id: Seq<char>,
    pub title: Seq<char>,
    pub description: Option<Seq<char>>,
    pub start_time: LocalTime,
    pub end_time: LocalTime,
    pub calendar_name: Seq<char>,
    pub calendar_color: Seq<char>,
    pub all_day: bool,
}

impl View for CalendarEvent {
    type V = EventView;

    open spec fn view(&self) -> EventView {
        EventView {
            id: self.id@,
            title: self.title@,
            description: match self.description {
                Some(d) => Some(d@),
                None => None,
            },
            start_time: self.start_time,
            end_time: self.end_time,
            calendar_name: self.calendar_name@,
            calendar_color: self.calendar_color@,
            all_day: self.all_day,
        }
    }
}

/// The contents of a list of events.
pub open spec fn event_views(events: Seq<CalendarEvent>) -> Seq<EventView> {
    events.map_values(|e: CalendarEvent| e@)
}

impl CalendarEvent {
    /// An independent copy of this event.
    pub fn duplicate(&self) -> (copy: CalendarEvent)
        ensures
            copy@ == self@,
    {
        CalendarEvent {
            id: self.id.clone(),
            title: self.title.clone(),
            description: match &self.description {
                Some(d) => Some(d.clone()),
                None => None,
            },
            start_time: self.start_time,
            end_time: self.end_time,
            calendar_name: self.calendar_name.clone(),
            calendar_color: self.calendar_color.clone(),
            all_day: self.all_day,
        }
    }
}

/// An independent copy of a list of events.
pub fn copy_events(events: &Vec<CalendarEvent>) -> (copy: Vec<CalendarEvent>)
    ensures
        event_views(copy@) == event_views(events@),
{
    let mut copy: Vec<CalendarEvent> = Vec::new();
    let mut i: usize = 0;
    while i < events.len()
        invariant
            i <= events.len(),
            event_views(copy@) == event_views(events@).take(i as int),
        decreases events.len() - i,
    {
        let ghost before = copy@;
        let item = events[i].duplicate();
        copy.push(item);
        assert(event_views(copy@) =~= event_views(before).push(events@[i as int]@));
        assert(event_views(events@).take(i + 1) =~= event_views(events@).take(i as int).push(
            events@[i as int]@,
        ));
        i += 1;
    }
    assert(event_views(events@).take(i as int) =~= event_views(events@));
    copy
}

/// What a status bar shows of the agenda.
#[derive(Debug)]
pub struct WaybarOutput {
    pub text: String,
    pub tooltip: String,
    pub class: String,
    pub percentage: u8,
}

/// The mathematical content of a [`WaybarOutput`].
pub struct WaybarView {
    pub text: Seq<char>,
    pub tooltip: Seq<char>,
    pub class: Seq<char>,
    pub percentage: u8,
}

impl View for WaybarOutput {
    type V = WaybarView;

    open spec fn view(&self) -> WaybarView {
        WaybarView {
            text: self.text@,
            tooltip: self.tooltip@,
            class: self.class@,
            percentage: self.percentage,
        }
    }
}

/// The short text for the next event: its title, after the time of day
/// unless it lasts all day.
pub open spec fn headline_of(event: EventView) -> Option<Seq<char>> {
    if event.all_day {
        Some(event.title)
    } else {
        match shown(event.start_time, "%H:%M"@) {
            Some(time) => Some(time + " "@ + event.title),
            None => None,
        }
    }
}

/// How full the agenda is, in percent: ten for each event, a hundred at
/// most.
pub open spec fn fullness(count: nat) -> u8 {
    if count >= 10 {
        100
    } else {
        (count * 10) as u8
    }
}

/// What a status bar shows of the given events, or `None` where a start
/// cannot be shown.
pub open spec fn waybar_of(events: Seq<EventView>) -> Option<WaybarView> {
    if events.len() == 0 {
        Some(
            WaybarView {
                text: "No events"@,
                tooltip: "No upcoming events"@,
                class: "calendar-empty"@,
                percentage: 0,
            },
        )
    } else {
        match (headline_of(events[0]), tooltip_text(events)) {
            (Some(text), Some(tooltip)) => Some(
                WaybarView {
                    text,
                    tooltip,
                    class: if events.len() > 1 {
                        "calendar-multiple"@
                    } else {
                        "calendar-single"@
                    },
                    percentage: fullness(events.len()),
                },
            ),
            _ => None,
        }
    }
}

/// The JSON object for a status bar: the four fields in order, the texts
/// as JSON string literals. `None` where a text has no literal.
pub open spec fn waybar_json_of(output: WaybarView) -> Option<Seq<char>> {
    match (json_literal(output.text), json_literal(output.tooltip), json_literal(output.class)) {
        (Some(text), Some(tooltip), Some(class)) => Some(
            "{\"text\":"@ + text + ",\"tooltip\":"@ + tooltip + ",\"class\":"@ + class
                + ",\"percentage\":"@ + decimal(output.percentage as int) + "}"@,
        ),
        _ => None,
    }
}

/// The agenda as JSON for a status bar; an empty object where the texts
/// cannot be written as JSON. `None` where a start cannot be shown.
pub open spec fn json_text(events: Seq<EventView>) -> Option<Seq<char>> {
    match waybar_of(events) {
        Some(output) => Some(
            match waybar_json_of(output) {
                Some(json) => json,
                None => "{}"@,
            },
        ),
        None => None,
    }
}

/// The agenda as plain text: a heading for each day and a line for each
/// event, without white space at the end. `None` where a start cannot be
/// shown.
pub open spec fn human_text(events: Seq<EventView>, date_format: Seq<char>) -> Option<Seq<char>> {
    if events.len() == 0 {
        Some("No upcoming events"@)
    } else {
        match agenda_pieces(events, events.len() as int, date_format) {
            Some(pieces) => Some(trimmed_end(plain_text(pieces))),
            None => None,
        }
    }
}

/// The pieces of the agenda for a colour terminal: a notice where there
/// are no events, the laid-out agenda otherwise.
pub open spec fn colored_pieces(events: Seq<EventView>, date_format: Seq<char>) -> Option<
    Seq<PieceView>,
> {
    if events.len() == 0 {
        Some(seq![PieceView { text: "No upcoming events"@, style: Style::Notice }])
    } else {
        agenda_pieces(events, events.len() as int, date_format)
    }
}

/// Whether `text` may be the agenda for a colour terminal: the pieces of
/// the agenda, each coloured in some way and the plain ones left alone,
/// written one after another; without white space at the end unless it is
/// the notice that there are no events.
pub open spec fn is_colored_text(
    text: Seq<char>,
    events: Seq<EventView>,
    date_format: Seq<char>,
) -> bool {
    &&& colored_pieces(events, date_format) is Some
    &&& exists|painted: Seq<Seq<char>>|
        {
            &&& #[trigger] is_painting_of(painted, colored_pieces(events, date_format)->0)
            &&& text == if events.len() == 0 {
                concat(painted)
            } else {
                trimmed_end(concat(painted))
            }
        }
}

/// What a status bar shows of the given events.
pub fn waybar_output(events: &[CalendarEvent]) -> (output: Option<WaybarOutput>)
    ensures
        match output {
            Some(made) => waybar_of(event_views(events@)) == Some(made@),
            None => waybar_of(event_views(events@)) is None,
        },
{
    if events.len() == 0 {
        return Some(
            WaybarOutput {
                text: String::from_str("No events"),
                tooltip: String::from_str("No upcoming events"),
                class: String::from_str("calendar-empty"),
                percentage: 0,
            },
        );
    }
    let next = &events[0];
    assert(event_views(events@)[0] == next@);
    let text = if next.all_day {
        next.title.clone()
    } else {
        match render_time(&next.start_time, "%H:%M") {
            Some(time) => time.concat(" ").concat(next.title.as_str()),
            None => {
                return None;
            },
        }
    };
    let tooltip = match create_tooltip(events) {
        Some(tooltip) => tooltip,
        None => {
            return None;
        },
    };
    let class = if events.len() > 1 {
        String::from_str("calendar-multiple")
    } else {
        String::from_str("calendar-single")
    };
    let percentage: u8 = if events.len() >= 10 {
        100
    } else {
        (events.len() * 10) as u8
    };
    Some(WaybarOutput { text, tooltip, class, percentage })
}

/// Writes the status bar fields as a JSON object.
pub fn waybar_json(output: &WaybarOutput) -> (json: Option<String>)
    ensures
        match json {
            Some(text) => waybar_json_of(output@) == Some(text@),
            None => waybar_json_of(output@) is None,
        },
{
    let text = json_string(output.text.as_str());
    let tooltip = json_string(output.tooltip.as_str());
    let class = json_string(output.class.as_str());
    match (text, tooltip, class) {
        (Some(text), Some(tooltip), Some(class)) => {
            let mut json = String::from_str("{\"text\":");
            json.append(text.as_str());
            json.append(",\"tooltip\":");
            json.append(tooltip.as_str());
            json.append(",\"class\":");
            json.append(class.as_str());
            json.append(",\"percentage\":");
            push_digits(&mut json, output.percentage as u64);
            json.append("}");
            Some(json)
        },
        _ => None,
    }
}

/// Writes an agenda in one of the output formats, showing no more than a
/// fixed number of events.
pub struct OutputFormatter {
    format: OutputFormat,
    date_format: String,
    max_events: usize,
}

impl OutputFormatter {
    /// The output format.
    pub closed spec fn format(&self) -> OutputFormat {
        self.format
    }

    /// The pattern under which the start of an event is shown.
    pub closed spec fn date_format(&self) -> Seq<char> {
        self.date_format@
    }

    /// The number of events shown at most.
    pub closed spec fn max_events(&self) -> usize {
        self.max_events
    }

    /// A formatter for the given format, pattern and number of events.
    pub fn new(format: OutputFormat, date_format: String, max_events: usize) -> (formatter: Self)
        ensures
            formatter.format() == format,
            formatter.date_format() == date_format@,
            formatter.max_events() == max_events,
    {
        OutputFormatter { format, date_format, max_events }
    }

    /// Whether `text` may be what the events are written as: exactly the
    /// status bar JSON or the plain text of the first `max_events` events,
    /// or one of the colourings of their plain text.
    pub open spec fn may_write(&self, events: Seq<EventView>, text: Option<Seq<char>>) -> bool {
        let shown = limited(events, Some(self.max_events()));
        match self.format() {
            OutputFormat::Json => text == json_text(shown),
            OutputFormat::Human => text == human_text(shown, self.date_format()),
            OutputFormat::Colored => match text {
                Some(text) => is_colored_text(text, shown, self.date_format()),
                None => colored_pieces(shown, self.date_format()) is None,
            },
        }
    }

    /// Writes the first `max_events` of the events in the formatter's
    /// format. `None` means that a start cannot be shown under a pattern it
    /// is to be shown with.
    pub fn format_events(&self, events: &[CalendarEvent]) -> (text: Option<String>)
        ensures
            self.may_write(
                event_views(events@),
                match text {
                    Some(t) => Some(t@),
                    None => None,
                },
            ),
    {
        let count = if self.max_events < events.len() {
            self.max_events
        } else {
            events.len()
        };
        let shown = slice_subrange(events, 0, count);
        assert(event_views(shown@) =~= limited(event_views(events@), Some(self.max_events)));
        match self.format {
            OutputFormat::Json => self.format_json(shown),
            OutputFormat::Human => self.format_human(shown),
            OutputFormat::Colored => self.format_colored(shown),
        }
    }

    /// Writes the events as JSON for a status bar.
    pub fn format_json(&self, events: &[CalendarEvent]) -> (text: Option<String>)
        ensures
            match text {
                Some(t) => json_text(event_views(events@)) == Some(t@),
                None => json_text(event_views(events@)) is None,
            },
    {
        match waybar_output(events) {
            Some(output) => match waybar_json(&output) {
                Some(json) => Some(json),
                None => Some(String::from_str("{}")),
            },
            None => None,
        }
    }

    /// Writes the events as plain text.
    pub fn format_human(&self, events: &[CalendarEvent]) -> (text: Option<String>)
        ensures
            match text {
                Some(t) => human_text(event_views(events@), self.date_format()) == Some(t@),
                None => human_text(event_views(events@), self.date_format()) is None,
            },
    {
        if events.len() == 0 {
            return Some(String::from_str("No upcoming events"));
        }
        match lay_out(events, self.date_format.as_str()) {
            Some(pieces) => Some(trim_end(write_plain(&pieces).as_str())),
            None => None,
        }
    }

    /// Writes the events as text for a colour terminal.
    pub fn format_colored(&self, events: &[CalendarEvent]) -> (text: Option<String>)
        ensures
            match text {
                Some(t) => is_colored_text(t@, event_views(events@), self.date_format()),
                None => colored_pieces(event_views(events@), self.date_format()) is None,
            },
    {
        if events.len() == 0 {
            let mut pieces: Vec<Piece> = Vec::new();
            pieces.push(
                Piece { text: String::from_str("No upcoming events"), style: Style::Notice },
            );
            assert(piece_views(pieces@) =~= colored_pieces(
                event_views(events@),
                self.date_format(),
            )->0);
            let painted = paint_all(&pieces);
            let text = concat_strings(painted.as_slice());
            proof {
                let wanted = colored_pieces(event_views(events@), self.date_format())->0;
                assert(is_painting_of(texts(painted@), wanted));
                assert(text@ == concat(texts(painted@)));
                assert(is_colored_text(text@, event_views(events@), self.date_format()));
            }
            return Some(text);
        }
        match lay_out(events, self.date_format.as_str()) {
            Some(pieces) => {
                let painted = paint_all(&pieces);
                let text = trim_end(concat_strings(painted.as_slice()).as_str());
                proof {
                    let wanted = colored_pieces(event_views(events@), self.date_format())->0;
                    assert(wanted == piece_views(pieces@));
                    assert(is_painting_of(texts(painted@), wanted));
                    assert(text@ == trimmed_end(concat(texts(painted@))));
                    assert(is_colored_text(text@, event_views(events@), self.date_format()));
                }
                Some(text)
            },
            None => None,
        }
    }
}

} // verus!
