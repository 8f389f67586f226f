//! Session records and their mathematical model.
use vstd::prelude::*;
use vstd::string::*;

verus! {

/// One client flow observed by the proxy, as stored in the session table.
pub struct ProxySession {
    pub session_id: String,
    pub display_id: String,
    pub tool_id: String,
    pub config_name: String,
    pub custom_profile_name: Option<String>,
    pub url: String,
    pub api_key: String,
    pub note: Option<String>,
    pub first_seen_at: i64,
    pub last_seen_at: i64,
    pub request_count: i64,
    pub created_at: i64,
    pub updated_at: i64,
}

/// The model of a [`ProxySession`]: every text field as a sequence of characters.
pub struct SessionView {
    pub session_id: Seq<char>,
    pub display_id: Seq<char>,
    pub tool_id: Seq<char>,
    pub config_name: Seq<char>,
    pub custom_profile_name: Option<Seq<char>>,
    pub url: Seq<char>,
    pub api_key: Seq<char>,
    pub note: Option<Seq<char>>,
    pub first_seen_at: i64,
    pub last_seen_at: i64,
    pub request_count: i64,
    pub created_at: i64,
    pub updated_at: i64,
}

pub open spec fn opt_view(o: Option<String>) -> Option<Seq<char>> {
    match o {
        Some(s) => Some(s@),
        None => None,
    }
}

impl View for ProxySession {
    type V = SessionView;

    open spec fn view(&self) -> SessionView {
        SessionView {
            session_id: self.session_id@,
            display_id: self.display_id@,
            tool_id: self.tool_id@,
            config_name: self.config_name@,
            custom_profile_name: opt_view(self.custom_profile_name),
            url: self.url@,
            api_key: self.api_key@,
            note: opt_view(self.note),
            first_seen_at: self.first_seen_at,
            last_seen_at: self.last_seen_at,
            request_count: self.request_count,
            created_at: self.created_at,
            updated_at: self.updated_at,
        }
    }
}

pub fn copy_opt(o: &Option<String>) -> (r: Option<String>)
    ensures
        opt_view(r) == opt_view(*o),
{
    match o {
        Some(s) => Some(s.clone()),
        None => None,
    }
}

/// The record a first request for `sid` creates at time `t`.
pub open spec fn fresh_session(sid: Seq<char>, did: Seq<char>, tool: Seq<char>, t: i64) -> SessionView {
    SessionView {
        session_id: sid,
        display_id: did,
        tool_id: tool,
        config_name: "global"@,
        custom_profile_name: None,
        url: Seq::empty(),
        api_key: Seq::empty(),
        note: None,
        first_seen_at: t,
        last_seen_at: t,
        request_count: 1,
        created_at: t,
        updated_at: t,
    }
}

/// The request counter after one more request; it stops at the largest `i64`.
pub open spec fn bumped(c: i64) -> i64 {
    if c < i64::MAX {
        (c + 1) as i64
    } else {
        c
    }
}

/// A stored record after one more observed request at time `t`.
pub open spec fn touched(s: SessionView, t: i64) -> SessionView {
    SessionView { last_seen_at: t, request_count: bumped(s.request_count), updated_at: t, ..s }
}

impl ProxySession {
    /// A field-by-field copy of the record.
    pub fn snapshot(&self) -> (r: ProxySession)
        ensures
            r@ == self@,
    {
        ProxySession {
            session_id: self.session_id.clone(),
            display_id: self.display_id.clone(),
            tool_id: self.tool_id.clone(),
            config_name: self.config_name.clone(),
            custom_profile_name: copy_opt(&self.custom_profile_name),
            url: self.url.clone(),
            api_key: self.api_key.clone(),
            note: copy_opt(&self.note),
            first_seen_at: self.first_seen_at,
            last_seen_at: self.last_seen_at,
            request_count: self.request_count,
            created_at: self.created_at,
            updated_at: self.updated_at,
        }
    }

    /// A new record for the first request of a session.
    pub fn first_seen(session_id: &str, display_id: &str, tool_id: &str, timestamp: i64) -> (r:
        ProxySession)
        ensures
            r@ == fresh_session(session_id@, display_id@, tool_id@, timestamp),
    {
        ProxySession {
            session_id: session_id.to_owned(),
            display_id: display_id.to_owned(),
            tool_id: tool_id.to_owned(),
            config_name: String::from_str("global"),
            custom_profile_name: None,
            url: String::new(),
            api_key: String::new(),
            note: None,
            first_seen_at: timestamp,
            last_seen_at: timestamp,
            request_count: 1,
            created_at: timestamp,
            updated_at: timestamp,
        }
    }
}

} // verus!
