//! Stored credentials and account status.
//!
//! The login flow, the browser hand-off and the credential file itself are
//! I/O outside the crate; what stands here is the shape of the stored
//! record and the reading of its JSON text.

use vstd::prelude::*;

use crate::json::lookup;
use crate::json::lookup_key;
use crate::json::parse_object;
use crate::json::sp_object;
use crate::json::Json;
use crate::json::JsonV;
use crate::text::chars_of;

verus! {

/// The stored authentication record.
pub struct StoredAuth {
    pub token: String,
    pub user: String,
    pub github_id: String,
}

/// The mathematical value of a stored record.
pub struct StoredAuthV {
    pub token: Seq<char>,
    pub user: Seq<char>,
    pub github_id: Seq<char>,
}

impl View for StoredAuth {
    type V = StoredAuthV;

    open spec fn view(&self) -> StoredAuthV {
        StoredAuthV { token: self.token@, user: self.user@, github_id: self.github_id@ }
    }
}

/// The account status the service reports.
pub struct UserStatus {
    pub user: String,
    pub tier: String,
    pub usage: i32,
    pub limit: i32,
    pub remaining: i32,
}

/// The stored record a credential file's text holds, if it is one line of
/// the wire format with the three fields.
pub open spec fn auth_of_json(s: Seq<char>) -> Option<StoredAuthV> {
    match sp_object(s) {
        None => None,
        Some(pairs) => match (
            lookup(pairs, "token"@),
            lookup(pairs, "user"@),
            lookup(pairs, "github_id"@),
        ) {
            (Some(JsonV::Str(t)), Some(JsonV::Str(u)), Some(JsonV::Str(g))) => Some(
                StoredAuthV { token: t, user: u, github_id: g },
            ),
            _ => None,
        },
    }
}

/// Read a credential file's text.
pub fn parse_stored_auth(content: &str) -> (r: Option<StoredAuth>)
    ensures
        match r {
            Some(a) => auth_of_json(content@) == Some(a@),
            None => auth_of_json(content@) is None,
        },
{
    let cs = chars_of(content);
    let pairs = match parse_object(&cs) {
        Some(p) => p,
        None => {
            return None;
        },
    };
    let t = match lookup_key(&pairs, &chars_of("token")) {
        Some(Json::Str(t)) => t,
        Some(Json::Bool(_)) => {
            return None;
        },
        Some(Json::Null) => {
            return None;
        },
        None => {
            return None;
        },
    };
    let u = match lookup_key(&pairs, &chars_of("user")) {
        Some(Json::Str(u)) => u,
        Some(Json::Bool(_)) => {
            return None;
        },
        Some(Json::Null) => {
            return None;
        },
        None => {
            return None;
        },
    };
    let g = match lookup_key(&pairs, &chars_of("github_id")) {
        Some(Json::Str(g)) => g,
        Some(Json::Bool(_)) => {
            return None;
        },
        Some(Json::Null) => {
            return None;
        },
        None => {
            return None;
        },
    };
    Some(StoredAuth { token: t, user: u, github_id: g })
}

} // verus!
