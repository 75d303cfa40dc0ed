//! Authentication settings and the reading of OAuth client credentials.

use crate::config::{Config, Settings};
use crate::error::{CalendarError, ErrorKind};
use vstd::prelude::*;

verus! {

/// serde_json's `Value`, a parsed JSON document or a part of one. What it
/// holds is known here only by its name, `json_nodes`.
#[verifier::external_type_specification]
#[verifier::external_body]
pub struct ExJsonValue(serde_json::Value);

/// serde_json's `Error`; nothing of its inside is known here.
#[verifier::external_type_specification]
#[verifier::external_body]
pub struct ExJsonError(serde_json::Error);

/// One step on the way from a JSON value to a value inside it: the key of
/// a member of an object, or the position of an item of an array.
pub enum JsonStep {
    Key(Seq<char>),
    Index(nat),
}

/// What a JSON value holds: every value in it by its path from the top.
/// The top has the empty path, a member of an object the path of the
/// object followed by the member's key, an item of an array the path of the
/// array followed by the item's position. Each path leads to the text of
/// the value there if that is a string, and to `None` if it is anything
/// else.
pub uninterp spec fn json_nodes(value: serde_json::Value) -> Map<
    Seq<JsonStep>,
    Option<Seq<char>>,
>;

/// What a text holds when read as a JSON document, or `None` where it is
/// no JSON document.
pub uninterp spec fn json_parsed(content: Seq<char>) -> Option<
    Map<Seq<JsonStep>, Option<Seq<char>>>,
>;

/// The path of one step to the member under `key`.
pub open spec fn key_path(key: Seq<char>) -> Seq<JsonStep> {
    seq![JsonStep::Key(key)]
}

/// The path of one step to the item at position `at`.
pub open spec fn index_path(at: nat) -> Seq<JsonStep> {
    seq![JsonStep::Index(at)]
}

/// What the value one step into a JSON value holds: the paths that begin
/// with the step, without it.
pub open spec fn below(nodes: Map<Seq<JsonStep>, Option<Seq<char>>>, step: JsonStep) -> Map<
    Seq<JsonStep>,
    Option<Seq<char>>,
> {
    Map::new(
        |path: Seq<JsonStep>| nodes.contains_key(seq![step] + path),
        |path: Seq<JsonStep>| nodes[seq![step] + path],
    )
}

/// The text of the string at a path, or `None` where the path leads
/// nowhere or to something that is no string.
pub open spec fn text_at(
    nodes: Map<Seq<JsonStep>, Option<Seq<char>>>,
    path: Seq<JsonStep>,
) -> Option<Seq<char>> {
    if nodes.contains_key(path) {
        nodes[path]
    } else {
        None
    }
}

/// Whether a JSON value has items at exactly the first `count` positions;
/// a value that is no array has none.
pub open spec fn has_items(nodes: Map<Seq<JsonStep>, Option<Seq<char>>>, count: nat) -> bool {
    forall|at: nat| #[trigger] nodes.contains_key(index_path(at)) <==> at < count
}

/// Whether the items of an array each hold what the array holds below
/// their position.
pub open spec fn are_items_of(
    items: Seq<serde_json::Value>,
    nodes: Map<Seq<JsonStep>, Option<Seq<char>>>,
) -> bool {
    forall|at: int|
        0 <= at < items.len() ==> json_nodes(#[trigger] items[at]) == below(
            nodes,
            JsonStep::Index(at as nat),
        )
}

/// The text of an optional string.
pub open spec fn text_of(found: Option<String>) -> Option<Seq<char>> {
    match found {
        Some(text) => Some(text@),
        None => None,
    }
}

/// Parses a JSON document with serde_json's `from_str`. What the document
/// holds is a function of the text alone and is known only by its name,
/// `json_parsed`; an error means that the text is no JSON document.
#[verifier::external_body]
fn parse_json(content: &str) -> (parsed: Result<serde_json::Value, serde_json::Error>)
    ensures
        parsed matches Ok(document) ==> json_parsed(content@) == Some(json_nodes(document)),
        parsed is Err ==> json_parsed(content@) is None,
{
    serde_json::from_str(content)
}

/// The text of a JSON parse error, as its `Display` writes it.
#[verifier::external_body]
fn json_error_text(error: &serde_json::Error) -> (text: String) {
    error.to_string()
}

/// The member of a JSON object under a key, with serde_json's `Value::get`;
/// `None` where the value is no object or has no such member. A member
/// that is found holds what the value holds below the key.
#[verifier::external_body]
fn json_member<'a>(value: &'a serde_json::Value, key: &str) -> (member: Option<
    &'a serde_json::Value,
>)
    ensures
        member matches Some(found) ==> json_nodes(*value).contains_key(key_path(key@))
            && json_nodes(*found) == below(json_nodes(*value), JsonStep::Key(key@)),
        member is None ==> !json_nodes(*value).contains_key(key_path(key@)),
{
    value.get(key)
}

/// The text of a JSON string, with serde_json's `Value::as_str`; `None`
/// where the value is no string.
#[verifier::external_body]
fn json_text(value: &serde_json::Value) -> (text: Option<String>)
    ensures
        text_of(text) == text_at(json_nodes(*value), Seq::empty()),
{
    value.as_str().map(|s| s.to_string())
}

/// The items of a JSON array, with serde_json's `Value::as_array`; `None`
/// where the value is no array. The items that are found are those at the
/// positions of the array, each holding what the value holds below its
/// position.
#[verifier::external_body]
fn json_items<'a>(value: &'a serde_json::Value) -> (items: Option<&'a Vec<serde_json::Value>>)
    ensures
        items matches Some(found) ==> has_items(json_nodes(*value), found@.len())
            && are_items_of(found@, json_nodes(*value)),
        items is None ==> has_items(json_nodes(*value), 0),
{
    value.as_array()
}

/// The authorisation endpoint used where the credentials name none.
pub open spec fn default_auth_uri() -> Seq<char> {
    "https://accounts.google.com/o/oauth2/auth"@
}

/// The token endpoint used where the credentials name none.
pub open spec fn default_token_uri() -> Seq<char> {
    "https://oauth2.googleapis.com/token"@
}

/// The redirect address used where the credentials name none.
pub open spec fn default_redirect_uri() -> Seq<char> {
    "http://localhost:8080"@
}

/// The credentials of an OAuth client application.
#[derive(Debug)]
pub struct ClientCredentials {
    pub client_id: String,
    pub client_secret: String,
    pub auth_uri: String,
    pub token_uri: String,
    pub redirect_uris: Vec<String>,
}

/// What a credentials document says, as far as it is read: whether it has
/// an `installed` or `web` section, and the texts found in that section.
#[derive(Debug)]
pub struct CredentialFields {
    pub has_section: bool,
    pub client_id: Option<String>,
    pub client_secret: Option<String>,
    pub auth_uri: Option<String>,
    pub token_uri: Option<String>,
    pub redirect_uri: Option<String>,
}

/// The mathematical content of [`CredentialFields`].
pub struct FieldsView {
    pub has_section: bool,
    pub client_id: Option<Seq<char>>,
    pub client_secret: Option<Seq<char>>,
    pub auth_uri: Option<Seq<char>>,
    pub token_uri: Option<Seq<char>>,
    pub redirect_uri: Option<Seq<char>>,
}

impl View for CredentialFields {
    type V = FieldsView;

    open spec fn view(&self) -> FieldsView {
        FieldsView {
            has_section: self.has_section,
            client_id: text_of(self.client_id),
            client_secret: text_of(self.client_secret),
            auth_uri: text_of(self.auth_uri),
            token_uri: text_of(self.token_uri),
            redirect_uri: text_of(self.redirect_uri),
        }
    }
}

/// A text that was found, or a default.
pub open spec fn found_or(found: Option<Seq<char>>, default: Seq<char>) -> Seq<char> {
    match found {
        Some(text) => text,
        None => default,
    }
}

/// The text of an optional string, or a default.
pub open spec fn text_or(found: Option<String>, default: Seq<char>) -> Seq<char> {
    found_or(text_of(found), default)
}

/// What is missing from what a credentials document says, if anything:
/// the section first, then the client identifier, then the client secret.
pub open spec fn missing_in(fields: FieldsView) -> Option<Seq<char>> {
    if !fields.has_section {
        Some("Missing 'installed' or 'web' section in credentials"@)
    } else if fields.client_id is None {
        Some("Missing 'client_id' in credentials"@)
    } else if fields.client_secret is None {
        Some("Missing 'client_secret' in credentials"@)
    } else {
        None
    }
}

/// What is missing from the fields of a credentials document, if anything.
pub open spec fn missing_from(fields: CredentialFields) -> Option<Seq<char>> {
    missing_in(fields@)
}

/// The key of the section that a credentials document is read from:
/// `installed` where it has such a member, else `web`, else none.
pub open spec fn section_key(document: Map<Seq<JsonStep>, Option<Seq<char>>>) -> Option<
    Seq<char>,
> {
    if document.contains_key(key_path("installed"@)) {
        Some("installed"@)
    } else if document.contains_key(key_path("web"@)) {
        Some("web"@)
    } else {
        None
    }
}

/// The redirect address that a section names: the first item of its
/// member `redirect_uris`, where there is such a member and its first item
/// is a string.
pub open spec fn first_redirect_in(section: Map<Seq<JsonStep>, Option<Seq<char>>>) -> Option<
    Seq<char>,
> {
    if section.contains_key(key_path("redirect_uris"@)) {
        text_at(below(section, JsonStep::Key("redirect_uris"@)), index_path(0))
    } else {
        None
    }
}

/// What a credentials document says, as far as it is read: the strings
/// among five members of its section. A member that is missing or is no
/// string counts as not found.
pub open spec fn fields_in(document: Map<Seq<JsonStep>, Option<Seq<char>>>) -> FieldsView {
    match section_key(document) {
        Some(key) => {
            let section = below(document, JsonStep::Key(key));
            FieldsView {
                has_section: true,
                client_id: text_at(section, key_path("client_id"@)),
                client_secret: text_at(section, key_path("client_secret"@)),
                auth_uri: text_at(section, key_path("auth_uri"@)),
                token_uri: text_at(section, key_path("token_uri"@)),
                redirect_uri: first_redirect_in(section),
            }
        },
        None => FieldsView {
            has_section: false,
            client_id: None,
            client_secret: None,
            auth_uri: None,
            token_uri: None,
            redirect_uri: None,
        },
    }
}

/// Whether `made` is what reading credentials gives for what the document
/// says: an error that names the first thing that is missing, or else the
/// client identifier and secret that were found, the endpoints that were
/// found or their defaults, and one redirect address, found or default.
pub open spec fn is_reading_of(
    made: Result<ClientCredentials, CalendarError>,
    fields: FieldsView,
) -> bool {
    match made {
        Ok(credentials) => {
            &&& missing_in(fields) is None
            &&& credentials.client_id@ == fields.client_id->0
            &&& credentials.client_secret@ == fields.client_secret->0
            &&& credentials.auth_uri@ == found_or(fields.auth_uri, default_auth_uri())
            &&& credentials.token_uri@ == found_or(fields.token_uri, default_token_uri())
            &&& credentials.redirect_uris@.len() == 1
            &&& credentials.redirect_uris@[0]@ == found_or(
                fields.redirect_uri,
                default_redirect_uri(),
            )
        },
        Err(error) => error.kind() == ErrorKind::Parse && missing_in(fields) == Some(
            error.detail(),
        ),
    }
}

/// Whether `error` reports a text that is no JSON document.
pub open spec fn is_invalid_json(error: CalendarError) -> bool {
    &&& error.kind() == ErrorKind::Parse
    &&& "Invalid JSON in credentials file: "@.is_prefix_of(error.detail())
}

fn text_or_default(found: Option<String>, default: &str) -> (text: String)
    ensures
        text@ == text_or(found, default@),
{
    match found {
        Some(text) => text,
        None => String::from_str(default),
    }
}

/// Builds client credentials from the fields of a credentials document.
/// The section, the client identifier and the client secret must be there;
/// the endpoints and the redirect address have defaults.
pub fn credentials_from(fields: CredentialFields) -> (made: Result<
    ClientCredentials,
    CalendarError,
>)
    ensures
        match made {
            Ok(credentials) => {
                &&& missing_from(fields) is None
                &&& credentials.client_id@ == fields.client_id->0@
                &&& credentials.client_secret@ == fields.client_secret->0@
                &&& credentials.auth_uri@ == text_or(fields.auth_uri, default_auth_uri())
                &&& credentials.token_uri@ == text_or(fields.token_uri, default_token_uri())
                &&& credentials.redirect_uris@.len() == 1
                &&& credentials.redirect_uris@[0]@ == text_or(
                    fields.redirect_uri,
                    default_redirect_uri(),
                )
            },
            Err(error) => error.kind() == ErrorKind::Parse && missing_from(fields) == Some(
                error.detail(),
            ),
        },
{
    let CredentialFields {
        has_section,
        client_id,
        client_secret,
        auth_uri,
        token_uri,
        redirect_uri,
    } = fields;
    if !has_section {
        return Err(
            CalendarError::ParseError(
                String::from_str("Missing 'installed' or 'web' section in credentials"),
            ),
        );
    }
    let client_id = match client_id {
        Some(text) => text,
        None => {
            return Err(
                CalendarError::ParseError(String::from_str("Missing 'client_id' in credentials")),
            );
        },
    };
    let client_secret = match client_secret {
        Some(text) => text,
        None => {
            return Err(
                CalendarError::ParseError(
                    String::from_str("Missing 'client_secret' in credentials"),
                ),
            );
        },
    };
    let mut redirect_uris: Vec<String> = Vec::new();
    redirect_uris.push(text_or_default(redirect_uri, "http://localhost:8080"));
    Ok(
        ClientCredentials {
            client_id,
            client_secret,
            auth_uri: text_or_default(auth_uri, "https://accounts.google.com/o/oauth2/auth"),
            token_uri: text_or_default(token_uri, "https://oauth2.googleapis.com/token"),
            redirect_uris,
        },
    )
}

/// The text of the member of `section` under `key`, where there is such
/// a member and it is a string.
fn member_text(section: &serde_json::Value, key: &str) -> (text: Option<String>)
    ensures
        text_of(text) == text_at(json_nodes(*section), key_path(key@)),
{
    match json_member(section, key) {
        Some(member) => {
            assert(key_path(key@) + Seq::<JsonStep>::empty() =~= key_path(key@));
            json_text(member)
        },
        None => None,
    }
}

/// The first item of the member `redirect_uris` of `section`, where there
/// is such a member, it is an array with a first item, and that item is a
/// string.
fn first_redirect(section: &serde_json::Value) -> (text: Option<String>)
    ensures
        text_of(text) == first_redirect_in(json_nodes(*section)),
{
    match json_member(section, "redirect_uris") {
        Some(member) => match json_items(member) {
            Some(items) => if items.len() > 0 {
                assert(index_path(0) + Seq::<JsonStep>::empty() =~= index_path(0));
                json_text(&items[0])
            } else {
                assert(!json_nodes(*member).contains_key(index_path(0)));
                None
            },
            None => {
                assert(!json_nodes(*member).contains_key(index_path(0)));
                None
            },
        },
        None => None,
    }
}

/// Reads the fields of a parsed credentials document: the `installed`
/// section, or else the `web` section, and the texts in it.
fn credential_fields(document: &serde_json::Value) -> (fields: CredentialFields)
    ensures
        fields@ == fields_in(json_nodes(*document)),
{
    let section = match json_member(document, "installed") {
        Some(section) => Some(section),
        None => json_member(document, "web"),
    };
    match section {
        Some(section) => CredentialFields {
            has_section: true,
            client_id: member_text(section, "client_id"),
            client_secret: member_text(section, "client_secret"),
            auth_uri: member_text(section, "auth_uri"),
            token_uri: member_text(section, "token_uri"),
            redirect_uri: first_redirect(section),
        },
        None => CredentialFields {
            has_section: false,
            client_id: None,
            client_secret: None,
            auth_uri: None,
            token_uri: None,
            redirect_uri: None,
        },
    }
}

/// Keeps the settings that authentication works from.
pub struct AuthManager {
    config: Config,
}

impl AuthManager {
    /// The settings this manager was made with.
    pub closed spec fn settings(&self) -> Settings {
        self.config@
    }

    /// A manager for the given settings.
    pub fn new(config: Config) -> (manager: Self)
        ensures
            manager.settings() == config@,
    {
        AuthManager { config }
    }

    /// The settings this manager was made with.
    pub fn config(&self) -> (config: &Config)
        ensures
            config@ == self.settings(),
    {
        &self.config
    }

    /// Reads client credentials from the text of a credentials file: a
    /// JSON document with an `installed` or a `web` section. Text that is
    /// no JSON, a missing section and a missing client identifier or
    /// secret are parse errors; credentials that come back hold one
    /// redirect address.
    pub fn load_application_secret(&self, content: &str) -> (loaded: Result<
        ClientCredentials,
        CalendarError,
    >)
        ensures
            match json_parsed(content@) {
                Some(document) => is_reading_of(loaded, fields_in(document)),
                None => loaded is Err && is_invalid_json(loaded->Err_0),
            },
            loaded matches Ok(credentials) ==> credentials.redirect_uris@.len() == 1,
            loaded matches Err(error) ==> error.kind() == ErrorKind::Parse,
    {
        match parse_json(content) {
            Ok(document) => credentials_from(credential_fields(&document)),
            Err(error) => Err(
                CalendarError::ParseError(
                    String::from_str("Invalid JSON in credentials file: ").concat(
                        json_error_text(&error).as_str(),
                    ),
                ),
            ),
        }
    }
}

} // verus!
