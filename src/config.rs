//! Configuration, and the setup decisions taken from it at startup.
use crate::text::str_eq;
use std::collections::HashMap;
use vstd::prelude::*;
use vstd::string::*;

verus! {

/// The whole configuration.
#[derive(Debug)]
pub struct LuoxuConfig {
    pub matrix: LuoxuConfigMatrix,
    pub meilisearch: LuoxuConfigMeilisearch,
    pub state: LuoxuConfigState,
}

/// The chat account, and which room feeds which index.
#[derive(Debug)]
pub struct LuoxuConfigMatrix {
    pub homeserver_url: String,
    pub username: String,
    pub password: Option<String>,
    pub device_name: String,
    /// Index name to room identifier or room alias.
    pub indices: HashMap<String, String>,
}

/// Where the search engine is and the key to it.
#[derive(Debug)]
pub struct LuoxuConfigMeilisearch {
    pub url: String,
    pub key: String,
}

/// Where the room mapping is stored.
#[derive(Debug)]
pub struct LuoxuConfigState {
    pub location: String,
}

/// `s` occurs in `v`.
pub open spec fn holds_text(v: Seq<String>, s: Seq<char>) -> bool {
    exists|j: int| 0 <= j < v.len() && (#[trigger] v[j])@ == s
}

/// Whether `v` holds a string equal to `s`.
pub fn contains_text(v: &Vec<String>, s: &str) -> (r: bool)
    ensures
        r == holds_text(v@, s@),
{
    let mut i: usize = 0;
    while i < v.len()
        invariant
            0 <= i <= v@.len(),
            forall|j: int| 0 <= j < i ==> (#[trigger] v@[j])@ != s@,
        decreases v@.len() - i,
    {
        if str_eq(v[i].as_str(), s) {
            return true;
        }
        i = i + 1;
    }
    false
}

/// The configured indices that the engine does not have yet, in the order given.
pub fn missing_indices(configured: &Vec<String>, existing: &Vec<String>) -> (r: Vec<String>)
    ensures
        forall|i: int|
            0 <= i < r@.len() ==> holds_text(configured@, #[trigger] r@[i]@) && !holds_text(
                existing@,
                r@[i]@,
            ),
        forall|j: int|
            0 <= j < configured@.len() && !holds_text(existing@, #[trigger] configured@[j]@)
                ==> holds_text(r@, configured@[j]@),
{
    let mut r: Vec<String> = Vec::new();
    let mut i: usize = 0;
    while i < configured.len()
        invariant
            0 <= i <= configured@.len(),
            forall|k: int|
                0 <= k < r@.len() ==> holds_text(configured@, #[trigger] r@[k]@) && !holds_text(
                    existing@,
                    r@[k]@,
                ),
            forall|j: int|
                0 <= j < i && !holds_text(existing@, #[trigger] configured@[j]@) ==> holds_text(
                    r@,
                    configured@[j]@,
                ),
        decreases configured@.len() - i,
    {
        let name = &configured[i];
        if !contains_text(existing, name.as_str()) {
            let ghost before = r@;
            r.push(name.clone());
            proof {
                assert(r@[r@.len() - 1] == configured@[i as int]);
                assert forall|j: int|
                    0 <= j <= i && !holds_text(existing@, #[trigger] configured@[j]@) implies holds_text(
                    r@,
                    configured@[j]@,
                ) by {
                    if j < i {
                        let m = choose|m: int| 0 <= m < before.len() && (#[trigger] before[m])@ == configured@[j]@;
                        assert(r@[m] == before[m]);
                    }
                }
            }
        }
        i = i + 1;
    }
    r
}

/// How a new index is set up: documents keyed by `event_id`, filtered by
/// sender, sorted by time.
#[derive(Debug, Clone)]
pub struct IndexSettings {
    pub primary_key: String,
    pub filterable_attributes: Vec<String>,
    pub sortable_attributes: Vec<String>,
}

/// The settings of every index that is created.
pub fn index_settings() -> (r: IndexSettings)
    ensures
        r.primary_key@ == "event_id"@,
        r.filterable_attributes@.len() == 1 && r.filterable_attributes@[0]@ == "user_id"@,
        r.sortable_attributes@.len() == 1 && r.sortable_attributes@[0]@ == "timestamp"@,
{
    let mut f: Vec<String> = Vec::new();
    f.push(String::from_str("user_id"));
    let mut s: Vec<String> = Vec::new();
    s.push(String::from_str("timestamp"));
    IndexSettings { primary_key: String::from_str("event_id"), filterable_attributes: f, sortable_attributes: s }
}

/// Whether a configured room is given by an alias (`#...`) that must be resolved
/// to a room identifier first.
pub fn is_room_alias(room: &str) -> (r: bool)
    ensures
        r == (room@.len() > 0 && room@[0] == '#'),
{
    room.unicode_len() > 0 && room.get_char(0) == '#'
}

/// How to log in.
#[derive(Debug, Clone, Copy, PartialEq, Eq, Structural)]
pub enum LoginChoice {
    /// Restore the saved session.
    Session,
    /// Log in with the configured password.
    Password,
    /// Neither a saved session nor a password is there.
    MissingCredentials,
}

/// A saved session is preferred; the password is the fallback.
pub fn choose_login(has_password: bool, has_session: bool) -> (r: LoginChoice)
    ensures
        has_session ==> r == LoginChoice::Session,
        !has_session && has_password ==> r == LoginChoice::Password,
        !has_session && !has_password ==> r == LoginChoice::MissingCredentials,
{
    if has_session {
        LoginChoice::Session
    } else if has_password {
        LoginChoice::Password
    } else {
        LoginChoice::MissingCredentials
    }
}

} // verus!
