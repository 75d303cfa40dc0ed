//! Settings of the agenda: where credentials live, how the cache is sized,
//! how events are displayed and which calendars are shown.

use vstd::prelude::*;

verus! {

/// Where the OAuth client credentials and the token cache are kept.
#[derive(Debug, Clone)]
pub struct AuthConfig {
    pub credentials_path: String,
    pub token_cache_path: String,
}

/// How long a cached agenda stays fresh and how many agendas are kept.
#[derive(Debug, Clone, Copy, PartialEq, Eq, Structural)]
pub struct CacheConfig {
    pub ttl_seconds: u64,
    pub max_entries: u64,
}

/// How events are shown.
#[derive(Debug, Clone)]
pub struct DisplayConfig {
    pub max_events: usize,
    pub date_format: String,
    pub timezone: String,
}

/// One calendar of the user: its provider identifier, the name and colour
/// shown with its events, and whether it takes part in the agenda.
#[derive(Debug, Clone)]
pub struct CalendarConfig {
    pub id: String,
    pub name: String,
    pub color: String,
    pub enabled: bool,
}

/// All settings.
#[derive(Debug, Clone)]
pub struct Config {
    pub auth: AuthConfig,
    pub cache: CacheConfig,
    pub display: DisplayConfig,
    pub calendars: Vec<CalendarConfig>,
}

/// The mathematical content of an [`AuthConfig`].
pub struct AuthSettings {
    pub credentials_path: Seq<char>,
    pub token_cache_path: Seq<char>,
}

/// The mathematical content of a [`DisplayConfig`].
pub struct DisplaySettings {
    pub max_events: nat,
    pub date_format: Seq<char>,
    pub timezone: Seq<char>,
}

/// The mathematical content of a [`CalendarConfig`].
pub struct CalendarSettings {
    pub id: Seq<char>,
    pub name: Seq<char>,
    pub color: Seq<char>,
    pub enabled: bool,
}

/// The mathematical content of a [`Config`].
pub struct Settings {
    pub auth: AuthSettings,
    pub cache: CacheConfig,
    pub display: DisplaySettings,
    pub calendars: Seq<CalendarSettings>,
}

impl View for AuthConfig {
    type V = AuthSettings;

    open spec fn view(&self) -> AuthSettings {
        AuthSettings {
            credentials_path: self.credentials_path@,
            token_cache_path: self.token_cache_path@,
        }
    }
}

impl View for DisplayConfig {
    type V = DisplaySettings;

    open spec fn view(&self) -> DisplaySettings {
        DisplaySettings {
            max_events: self.max_events as nat,
            date_format: self.date_format@,
            timezone: self.timezone@,
        }
    }
}

impl View for CalendarConfig {
    type V = CalendarSettings;

    open spec fn view(&self) -> CalendarSettings {
        CalendarSettings {
            id: self.id@,
            name: self.name@,
            color: self.color@,
            enabled: self.enabled,
        }
    }
}

impl View for Config {
    type V = Settings;

    open spec fn view(&self) -> Settings {
        Settings {
            auth: self.auth@,
            cache: self.cache,
            display: self.display@,
            calendars: calendar_settings(self.calendars@),
        }
    }
}

/// The contents of a list of calendar entries.
pub open spec fn calendar_settings(calendars: Seq<CalendarConfig>) -> Seq<CalendarSettings> {
    calendars.map_values(|c: CalendarConfig| c@)
}

/// The identifiers of the enabled calendars, in configured order.
pub open spec fn enabled_ids(calendars: Seq<CalendarSettings>) -> Seq<Seq<char>> {
    calendars.filter(|c: CalendarSettings| c.enabled).map_values(|c: CalendarSettings| c.id)
}

/// The position of the first calendar entry with the given identifier, or
/// the number of entries if there is none.
pub open spec fn first_with_id(calendars: Seq<CalendarSettings>, id: Seq<char>) -> int
    decreases calendars.len(),
{
    if calendars.len() == 0 {
        0
    } else if calendars[0].id == id {
        0
    } else {
        1 + first_with_id(calendars.drop_first(), id)
    }
}

/// The settings that a fresh installation starts with.
pub open spec fn default_settings() -> Settings {
    Settings {
        auth: AuthSettings {
            credentials_path: "~/.config/callux/credentials.json"@,
            token_cache_path: "~/.config/callux/token.json"@,
        },
        cache: CacheConfig { ttl_seconds: 300, max_entries: 1000 },
        display: DisplaySettings {
            max_events: 10,
            date_format: "%Y-%m-%d %H:%M"@,
            timezone: "local"@,
        },
        calendars: seq![
            CalendarSettings {
                id: "primary"@,
                name: "Personal"@,
                color: "#1976d2"@,
                enabled: true,
            },
        ],
    }
}

impl Default for Config {
    fn default() -> (config: Self)
        ensures
            config@ == default_settings(),
    {
        let mut calendars: Vec<CalendarConfig> = Vec::new();
        calendars.push(
            CalendarConfig {
                id: String::from_str("primary"),
                name: String::from_str("Personal"),
                color: String::from_str("#1976d2"),
                enabled: true,
            },
        );
        let config = Config {
            auth: AuthConfig {
                credentials_path: String::from_str("~/.config/callux/credentials.json"),
                token_cache_path: String::from_str("~/.config/callux/token.json"),
            },
            cache: CacheConfig { ttl_seconds: 300, max_entries: 1000 },
            display: DisplayConfig {
                max_events: 10,
                date_format: String::from_str("%Y-%m-%d %H:%M"),
                timezone: String::from_str("local"),
            },
            calendars,
        };
        assert(config@.calendars =~= default_settings().calendars);
        config
    }
}

impl CalendarConfig {
    /// An independent copy of this entry.
    pub fn duplicate(&self) -> (copy: CalendarConfig)
        ensures
            copy@ == self@,
    {
        CalendarConfig {
            id: self.id.clone(),
            name: self.name.clone(),
            color: self.color.clone(),
            enabled: self.enabled,
        }
    }
}

/// The user's home directory, from dirs' `home_dir`, as text. It depends
/// on the machine and the environment; nothing is claimed of it.
#[verifier::external_body]
fn home_directory() -> (home: Option<String>) {
    dirs::home_dir().map(|home| home.to_string_lossy().to_string())
}

/// A path below a directory, with the standard library's `Path::join`. How
/// paths are joined depends on the platform; nothing is claimed of the
/// result.
#[verifier::external_body]
fn path_below(directory: &str, rest: &str) -> (joined: String) {
    std::path::Path::new(directory).join(rest).to_string_lossy().to_string()
}

/// Whether a path is written relative to the home directory: it begins
/// with a tilde and a slash.
pub open spec fn is_home_relative(path: Seq<char>) -> bool {
    path.len() >= 2 && path[0] == '~' && path[1] == '/'
}

/// Whether `path` is written relative to the home directory; if so also
/// what follows the tilde and the slash.
pub fn home_relative_rest(path: &str) -> (rest: Option<&str>)
    ensures
        match rest {
            Some(rest) => is_home_relative(path@) && rest@ == path@.skip(2),
            None => !is_home_relative(path@),
        },
{
    let length = path.unicode_len();
    if length >= 2 && path.get_char(0) == '~' && path.get_char(1) == '/' {
        let rest = path.substring_char(2, length);
        assert(rest@ =~= path@.skip(2));
        Some(rest)
    } else {
        None
    }
}

/// Expands a path that is written relative to the home directory, given
/// the home directory where it is known. Any other path comes back as it
/// is, and so does every path where the home directory is not known.
pub fn expand_path_from(path: &str, home: Option<&str>) -> (expanded: String)
    ensures
        !is_home_relative(path@) || home is None ==> expanded@ == path@,
{
    match (home_relative_rest(path), home) {
        (Some(rest), Some(home)) => path_below(home, rest),
        _ => String::from_str(path),
    }
}

impl Config {
    /// Expands a path that is written relative to the home directory of
    /// the user. Any other path comes back as it is.
    pub fn expand_path(&self, path: &str) -> (expanded: String)
        ensures
            !is_home_relative(path@) ==> expanded@ == path@,
    {
        match home_directory() {
            Some(home) => expand_path_from(path, Some(home.as_str())),
            None => expand_path_from(path, None),
        }
    }

    /// An independent copy of these settings.
    pub fn duplicate(&self) -> (copy: Config)
        ensures
            copy@ == self@,
    {
        let mut calendars: Vec<CalendarConfig> = Vec::new();
        let mut i: usize = 0;
        while i < self.calendars.len()
            invariant
                i <= self.calendars.len(),
                calendar_settings(calendars@) == calendar_settings(self.calendars@).take(i as int),
            decreases self.calendars.len() - i,
        {
            let ghost before = calendars@;
            let copy = self.calendars[i].duplicate();
            calendars.push(copy);
            assert(calendar_settings(calendars@) =~= calendar_settings(before).push(
                self.calendars@[i as int]@,
            ));
            assert(calendar_settings(self.calendars@).take(i + 1) =~= calendar_settings(
                self.calendars@,
            ).take(i as int).push(self.calendars@[i as int]@));
            i += 1;
        }
        assert(calendar_settings(self.calendars@).take(i as int) =~= calendar_settings(
            self.calendars@,
        ));
        Config {
            auth: AuthConfig {
                credentials_path: self.auth.credentials_path.clone(),
                token_cache_path: self.auth.token_cache_path.clone(),
            },
            cache: self.cache,
            display: DisplayConfig {
                max_events: self.display.max_events,
                date_format: self.display.date_format.clone(),
                timezone: self.display.timezone.clone(),
            },
            calendars,
        }
    }

    /// The identifiers of the enabled calendars, in configured order.
    pub fn enabled_calendar_ids(&self) -> (ids: Vec<String>)
        ensures
            crate::text::texts(ids@) == enabled_ids(self@.calendars),
    {
        let mut ids: Vec<String> = Vec::new();
        let mut i: usize = 0;
        let ghost all = calendar_settings(self.calendars@);
        let ghost on = |c: CalendarSettings| c.enabled;
        let ghost id_of = |c: CalendarSettings| c.id;
        proof {
            reveal(Seq::filter);
        }
        while i < self.calendars.len()
            invariant
                i <= self.calendars.len(),
                all == calendar_settings(self.calendars@),
                on == |c: CalendarSettings| c.enabled,
                id_of == |c: CalendarSettings| c.id,
                crate::text::texts(ids@) == all.take(i as int).filter(on).map_values(id_of),
            decreases self.calendars.len() - i,
        {
            proof {
                reveal(Seq::filter);
                assert(all.take(i + 1).drop_last() =~= all.take(i as int));
                assert(all.take(i + 1).last() == self.calendars@[i as int]@);
            }
            let ghost before = ids@;
            if self.calendars[i].enabled {
                ids.push(self.calendars[i].id.clone());
                assert(crate::text::texts(ids@) =~= crate::text::texts(before).push(
                    self.calendars@[i as int].id@,
                ));
                assert(all.take(i + 1).filter(on) == all.take(i as int).filter(on).push(
                    self.calendars@[i as int]@,
                ));
            } else {
                assert(all.take(i + 1).filter(on) == all.take(i as int).filter(on));
            }
            assert(crate::text::texts(ids@) =~= all.take(i + 1).filter(on).map_values(id_of));
            i += 1;
        }
        assert(all.take(i as int) =~= all);
        ids
    }

    /// The first calendar entry with the given identifier, enabled or not.
    pub fn find_calendar(&self, id: &str) -> (found: Option<usize>)
        ensures
            found matches Some(i) ==> i < self.calendars.len() && i == first_with_id(
                self@.calendars,
                id@,
            ),
            found is None ==> first_with_id(self@.calendars, id@) == self.calendars.len(),
    {
        let ghost all = calendar_settings(self.calendars@);
        let wanted = String::from_str(id);
        let mut i: usize = 0;
        assert(all.skip(0) =~= all);
        while i < self.calendars.len()
            invariant
                i <= self.calendars.len(),
                wanted@ == id@,
                all == calendar_settings(self.calendars@),
                first_with_id(all, id@) == i + first_with_id(all.skip(i as int), id@),
            decreases self.calendars.len() - i,
        {
            assert(all.skip(i as int)[0] == self.calendars@[i as int]@);
            if self.calendars[i].id == wanted {
                return Some(i);
            }
            assert(all.skip(i as int).drop_first() =~= all.skip(i + 1));
            i += 1;
        }
        None
    }
}

} // verus!
