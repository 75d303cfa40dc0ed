use callux::auth::{credentials_from, AuthManager, CredentialFields};
use callux::cli::{agenda_request, AgendaRequest, DEFAULT_DAYS_AHEAD};
use callux::config::{expand_path_from, home_relative_rest, CalendarConfig, Config};
use callux::error::{CalendarError, ErrorKind};
use callux::time::{fetch_window, FetchWindow, UtcInstant};

#[test]
fn default_settings() {
    let config = Config::default();
    assert_eq!(config.auth.credentials_path, "~/.config/callux/credentials.json");
    assert_eq!(config.auth.token_cache_path, "~/.config/callux/token.json");
    assert_eq!(config.cache.ttl_seconds, 300);
    assert_eq!(config.cache.max_entries, 1000);
    assert_eq!(config.display.max_events, 10);
    assert_eq!(config.display.date_format, "%Y-%m-%d %H:%M");
    assert_eq!(config.display.timezone, "local");
    assert_eq!(config.calendars.len(), 1);
    assert_eq!(config.calendars[0].id, "primary");
    assert_eq!(config.calendars[0].name, "Personal");
    assert_eq!(config.calendars[0].color, "#1976d2");
    assert!(config.calendars[0].enabled);
}

#[test]
fn duplicate_is_equal_and_independent() {
    let mut config = Config::default();
    config.calendars.push(CalendarConfig {
        id: "work".to_string(),
        name: "Work".to_string(),
        color: "#000000".to_string(),
        enabled: false,
    });
    let mut copy = config.duplicate();
    assert_eq!(copy.calendars.len(), 2);
    assert_eq!(copy.calendars[1].id, "work");
    assert!(!copy.calendars[1].enabled);
    assert_eq!(copy.display.date_format, config.display.date_format);
    copy.calendars[1].id.push('!');
    assert_eq!(config.calendars[1].id, "work");
}

#[test]
fn enabled_ids_and_lookup() {
    let mut config = Config::default();
    config.calendars = vec![
        CalendarConfig {
            id: "x".to_string(),
            name: "X".to_string(),
            color: "".to_string(),
            enabled: false,
        },
        CalendarConfig {
            id: "y".to_string(),
            name: "Y".to_string(),
            color: "".to_string(),
            enabled: true,
        },
        CalendarConfig {
            id: "y".to_string(),
            name: "Y again".to_string(),
            color: "".to_string(),
            enabled: true,
        },
    ];
    assert_eq!(config.enabled_calendar_ids(), vec!["y", "y"]);
    assert_eq!(config.find_calendar("x"), Some(0));
    assert_eq!(config.find_calendar("y"), Some(1));
    assert_eq!(config.find_calendar("z"), None);
}

#[test]
fn path_outside_home_stays_as_it_is() {
    let config = Config::default();
    assert_eq!(config.expand_path("/etc/callux.toml"), "/etc/callux.toml");
    assert_eq!(config.expand_path("relative/file"), "relative/file");
    assert_eq!(config.expand_path("~"), "~");
    assert_eq!(config.expand_path("~user/file"), "~user/file");
    assert_eq!(config.expand_path(""), "");
}

#[test]
fn path_below_home_is_expanded() {
    let config = Config::default();
    let expanded = config.expand_path("~/.config/callux/config.toml");
    match dirs::home_dir() {
        Some(home) => assert_eq!(
            expanded,
            home.join(".config/callux/config.toml").to_string_lossy().to_string()
        ),
        None => assert_eq!(expanded, "~/.config/callux/config.toml"),
    }
}

#[test]
fn expansion_from_a_given_home() {
    let joined = std::path::Path::new("/home/ada").join("notes/today.txt");
    assert_eq!(
        expand_path_from("~/notes/today.txt", Some("/home/ada")),
        joined.to_string_lossy().to_string()
    );
    assert_eq!(expand_path_from("~/notes/today.txt", None), "~/notes/today.txt");
    assert_eq!(expand_path_from("/var/log", Some("/home/ada")), "/var/log");
    assert_eq!(expand_path_from("", Some("/home/ada")), "");
}

#[test]
fn rest_of_a_home_relative_path() {
    assert_eq!(home_relative_rest("~/a/b"), Some("a/b"));
    assert_eq!(home_relative_rest("~/"), Some(""));
    assert_eq!(home_relative_rest("~/\u{e9}t\u{e9}"), Some("\u{e9}t\u{e9}"));
    assert_eq!(home_relative_rest("/a/b"), None);
    assert_eq!(home_relative_rest("~"), None);
    assert_eq!(home_relative_rest(""), None);
}

#[test]
fn error_messages() {
    let auth = CalendarError::AuthenticationFailed("no token".to_string());
    assert_eq!(auth.message(), "Authentication failed: no token");
    assert_eq!(auth.error_kind(), ErrorKind::Authentication);
    let api = CalendarError::ApiError("503".to_string());
    assert_eq!(api.message(), "API error: 503");
    assert_eq!(api.error_kind(), ErrorKind::Api);
    let config = CalendarError::ConfigError("bad".to_string());
    assert_eq!(config.message(), "Configuration error: bad");
    assert_eq!(config.error_kind(), ErrorKind::Config);
    let parse = CalendarError::ParseError("".to_string());
    assert_eq!(parse.message(), "Parse error: ");
    assert_eq!(parse.error_kind(), ErrorKind::Parse);
}

#[test]
fn agenda_request_defaults() {
    assert_eq!(DEFAULT_DAYS_AHEAD, 7);
    assert_eq!(agenda_request(None, None, 10), AgendaRequest { days_ahead: 7, limit: Some(10) });
    assert_eq!(
        agenda_request(Some(3), Some(0), 10),
        AgendaRequest { days_ahead: 0, limit: Some(3) }
    );
    assert_eq!(
        agenda_request(Some(0), Some(-2), 10),
        AgendaRequest { days_ahead: -2, limit: Some(0) }
    );
}

#[test]
fn window_spans_the_days_ahead() {
    let now = UtcInstant { secs: 1_717_232_400, nanos: 123 };
    assert_eq!(
        fetch_window(now, 7),
        Some(FetchWindow {
            time_min: now,
            time_max: UtcInstant { secs: 1_717_232_400 + 7 * 86_400, nanos: 123 },
        })
    );
    assert_eq!(fetch_window(now, 0), Some(FetchWindow { time_min: now, time_max: now }));
    assert_eq!(
        fetch_window(now, -1),
        Some(FetchWindow {
            time_min: now,
            time_max: UtcInstant { secs: 1_717_232_400 - 86_400, nanos: 123 },
        })
    );
}

#[test]
fn window_beyond_the_calendar() {
    let now = UtcInstant { secs: 1_717_232_400, nanos: 0 };
    let last = chrono::DateTime::<chrono::Utc>::MAX_UTC.timestamp();
    let first = chrono::DateTime::<chrono::Utc>::MIN_UTC.timestamp();
    assert_eq!(fetch_window(now, i64::MAX), None);
    assert_eq!(fetch_window(now, i64::MIN), None);
    assert_eq!(fetch_window(now, 106_751_991_167), None);
    assert_eq!(fetch_window(now, -106_751_991_168), None);
    assert_eq!(fetch_window(UtcInstant { secs: i64::MAX, nanos: 0 }, 1), None);
    assert_eq!(fetch_window(UtcInstant { secs: i64::MAX, nanos: 0 }, 0), None);
    assert_eq!(fetch_window(UtcInstant { secs: i64::MAX - 86_400, nanos: 0 }, 1), None);
    assert_eq!(
        fetch_window(UtcInstant { secs: last - 86_400, nanos: 0 }, 1).unwrap().time_max,
        UtcInstant { secs: last, nanos: 0 }
    );
    assert_eq!(fetch_window(UtcInstant { secs: last - 86_399, nanos: 0 }, 1), None);
    assert_eq!(
        fetch_window(UtcInstant { secs: first + 86_400, nanos: 0 }, -1).unwrap().time_max,
        UtcInstant { secs: first, nanos: 0 }
    );
    assert_eq!(fetch_window(UtcInstant { secs: first + 86_399, nanos: 0 }, -1), None);
    assert_eq!(fetch_window(UtcInstant { secs: 0, nanos: 1_000_000_000 }, 1), None);
}

#[test]
fn window_from_inside_a_leap_second() {
    let leap = UtcInstant { secs: 59, nanos: 1_500_000_000 };
    assert_eq!(
        fetch_window(leap, 1).unwrap().time_max,
        UtcInstant { secs: 59 + 86_400, nanos: 500_000_000 }
    );
    assert_eq!(
        fetch_window(leap, -1).unwrap().time_max,
        UtcInstant { secs: 60 - 86_400, nanos: 500_000_000 }
    );
    assert_eq!(fetch_window(leap, 0).unwrap().time_max, leap);
}

fn manager() -> AuthManager {
    AuthManager::new(Config::default())
}

#[test]
fn manager_keeps_its_settings() {
    let manager = manager();
    assert_eq!(manager.config().auth.credentials_path, "~/.config/callux/credentials.json");
}

#[test]
fn installed_credentials_are_read() {
    let content = "{\"installed\": {\"client_id\": \"id-1\", \"client_secret\": \"s3cr3t\", \
                   \"auth_uri\": \"https://auth.example\", \"token_uri\": \"https://token.example\", \
                   \"redirect_uris\": [\"http://localhost:9000\", \"http://other\"]}}";
    let credentials = manager().load_application_secret(content).unwrap();
    assert_eq!(credentials.client_id, "id-1");
    assert_eq!(credentials.client_secret, "s3cr3t");
    assert_eq!(credentials.auth_uri, "https://auth.example");
    assert_eq!(credentials.token_uri, "https://token.example");
    assert_eq!(credentials.redirect_uris, vec!["http://localhost:9000"]);
}

#[test]
fn web_credentials_get_the_defaults() {
    let content = "{\"web\": {\"client_id\": \"id-2\", \"client_secret\": \"x\"}}";
    let credentials = manager().load_application_secret(content).unwrap();
    assert_eq!(credentials.client_id, "id-2");
    assert_eq!(credentials.auth_uri, "https://accounts.google.com/o/oauth2/auth");
    assert_eq!(credentials.token_uri, "https://oauth2.googleapis.com/token");
    assert_eq!(credentials.redirect_uris, vec!["http://localhost:8080"]);
}

#[test]
fn installed_section_is_preferred() {
    let content = "{\"web\": {\"client_id\": \"w\", \"client_secret\": \"x\"}, \
                   \"installed\": {\"client_id\": \"i\", \"client_secret\": \"y\"}}";
    assert_eq!(manager().load_application_secret(content).unwrap().client_id, "i");
}

#[test]
fn unusable_members_count_as_missing() {
    let content = "{\"installed\": {\"client_id\": \"i\", \"client_secret\": \"y\", \
                   \"auth_uri\": 5, \"redirect_uris\": []}}";
    let credentials = manager().load_application_secret(content).unwrap();
    assert_eq!(credentials.auth_uri, "https://accounts.google.com/o/oauth2/auth");
    assert_eq!(credentials.redirect_uris, vec!["http://localhost:8080"]);
    let numbered = "{\"installed\": {\"client_id\": 7, \"client_secret\": \"y\"}}";
    let error = manager().load_application_secret(numbered).unwrap_err();
    assert_eq!(error.message(), "Parse error: Missing 'client_id' in credentials");
}

#[test]
fn credentials_errors() {
    let no_section = manager().load_application_secret("{\"other\": {}}").unwrap_err();
    assert_eq!(
        no_section.message(),
        "Parse error: Missing 'installed' or 'web' section in credentials"
    );
    let no_id =
        manager().load_application_secret("{\"installed\": {\"client_secret\": \"y\"}}").unwrap_err();
    assert_eq!(no_id.message(), "Parse error: Missing 'client_id' in credentials");
    let no_secret =
        manager().load_application_secret("{\"installed\": {\"client_id\": \"i\"}}").unwrap_err();
    assert_eq!(no_secret.message(), "Parse error: Missing 'client_secret' in credentials");
    let not_json = manager().load_application_secret("{not json").unwrap_err();
    assert_eq!(not_json.error_kind(), ErrorKind::Parse);
    assert!(not_json.message().starts_with("Parse error: Invalid JSON in credentials file: "));
    assert!(not_json.message().len() > "Parse error: Invalid JSON in credentials file: ".len());
}

#[test]
fn credentials_from_fields() {
    let made = credentials_from(CredentialFields {
        has_section: true,
        client_id: Some("i".to_string()),
        client_secret: Some("s".to_string()),
        auth_uri: None,
        token_uri: Some("t".to_string()),
        redirect_uri: None,
    })
    .unwrap();
    assert_eq!(made.client_id, "i");
    assert_eq!(made.client_secret, "s");
    assert_eq!(made.auth_uri, "https://accounts.google.com/o/oauth2/auth");
    assert_eq!(made.token_uri, "t");
    assert_eq!(made.redirect_uris, vec!["http://localhost:8080"]);
    let missing = credentials_from(CredentialFields {
        has_section: false,
        client_id: Some("i".to_string()),
        client_secret: Some("s".to_string()),
        auth_uri: None,
        token_uri: None,
        redirect_uri: None,
    })
    .unwrap_err();
    assert_eq!(
        missing.message(),
        "Parse error: Missing 'installed' or 'web' section in credentials"
    );
}

#[test]
fn section_that_is_no_object_has_no_members() {
    let error = manager().load_application_secret("{\"installed\": 5}").unwrap_err();
    assert_eq!(error.message(), "Parse error: Missing 'client_id' in credentials");
    let listed = manager().load_application_secret("{\"web\": [\"client_id\"]}").unwrap_err();
    assert_eq!(listed.message(), "Parse error: Missing 'client_id' in credentials");
}

#[test]
fn installed_section_is_read_even_where_only_web_is_complete() {
    let content = "{\"installed\": {\"client_secret\": \"y\"}, \
                   \"web\": {\"client_id\": \"w\", \"client_secret\": \"x\"}}";
    let error = manager().load_application_secret(content).unwrap_err();
    assert_eq!(error.message(), "Parse error: Missing 'client_id' in credentials");
}

#[test]
fn document_that_is_no_object_has_no_section() {
    for content in ["[]", "\"installed\"", "7", "null", "[{\"installed\": {}}]"] {
        let error = manager().load_application_secret(content).unwrap_err();
        assert_eq!(
            error.message(),
            "Parse error: Missing 'installed' or 'web' section in credentials"
        );
    }
}

#[test]
fn redirect_address_is_the_first_item_if_it_is_a_string() {
    let read = |redirects: &str| {
        let content = format!(
            "{{\"installed\": {{\"client_id\": \"i\", \"client_secret\": \"s\", \
             \"redirect_uris\": {}}}}}",
            redirects
        );
        manager().load_application_secret(&content).unwrap().redirect_uris
    };
    assert_eq!(read("[\"http://a\", \"http://b\"]"), vec!["http://a"]);
    assert_eq!(read("[\"\"]"), vec![""]);
    assert_eq!(read("[7, \"http://b\"]"), vec!["http://localhost:8080"]);
    assert_eq!(read("[[\"http://nested\"]]"), vec!["http://localhost:8080"]);
    assert_eq!(read("\"http://a\""), vec!["http://localhost:8080"]);
    assert_eq!(read("{\"0\": \"http://a\"}"), vec!["http://localhost:8080"]);
    assert_eq!(read("null"), vec!["http://localhost:8080"]);
}

#[test]
fn text_after_the_document_is_no_json() {
    let error = manager()
        .load_application_secret("{\"installed\": {\"client_id\": \"i\"}} trailing")
        .unwrap_err();
    assert!(error.message().starts_with("Parse error: Invalid JSON in credentials file: "));
    let empty = manager().load_application_secret("").unwrap_err();
    assert!(empty.message().starts_with("Parse error: Invalid JSON in credentials file: "));
}
