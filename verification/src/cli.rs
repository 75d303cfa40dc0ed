//! The commands of the agenda program and what an agenda request asks for.

use vstd::prelude::*;

verus! {

/// The number of days an agenda covers where the user names none.
pub const DEFAULT_DAYS_AHEAD: i64 = 7;

/// How the agenda is written out.
#[derive(Debug, Clone, Copy, PartialEq, Eq, Structural)]
pub enum OutputFormat {
    Json,
    Human,
    Colored,
}

/// What to do with the settings.
#[derive(Debug)]
pub enum ConfigAction {
    Show,
    SetValue { key: String, value: String },
    Init,
}

/// What the program is asked to do.
#[derive(Debug)]
pub enum Commands {
    Agenda { format: OutputFormat, limit: Option<usize>, days: Option<i64> },
    ListCalendars,
    Config { action: ConfigAction },
    Auth,
}

/// The command line, parsed.
#[derive(Debug)]
pub struct Cli {
    pub command: Commands,
}

/// An agenda request with its defaults filled in.
#[derive(Debug, Clone, Copy, PartialEq, Eq, Structural)]
pub struct AgendaRequest {
    pub days_ahead: i64,
    pub limit: Option<usize>,
}

/// Fills in what an agenda command leaves open: seven days where no number
/// of days is given, and the configured number of events where no limit is
/// given.
pub fn agenda_request(limit: Option<usize>, days: Option<i64>, max_events: usize) -> (request:
    AgendaRequest)
    ensures
        request.days_ahead == match days {
            Some(d) => d,
            None => DEFAULT_DAYS_AHEAD,
        },
        request.limit == Some(
            match limit {
                Some(n) => n,
                None => max_events,
            },
        ),
{
    AgendaRequest {
        days_ahead: match days {
            Some(d) => d,
            None => DEFAULT_DAYS_AHEAD,
        },
        limit: match limit {
            Some(n) => Some(n),
            None => Some(max_events),
        },
    }
}

} // verus!
