//! The records that the collaborator stores and answers with, held as plain
//! values: identifiers as 128-bit numbers, instants as UTC seconds and
//! nanoseconds, JSON documents as their text.

use vstd::prelude::*;

verus! {

/// A UTC instant: whole seconds since the Unix epoch and the nanoseconds
/// within that second. Instants order by `secs`, then by `nanos`.
#[derive(Debug, Clone, Copy, PartialEq, Eq, Structural)]
pub struct Timestamp {
    pub secs: i64,
    pub nanos: u32,
}

/// Whether instant `a` is strictly later than instant `b`.
pub open spec fn later_than(a: Timestamp, b: Timestamp) -> bool {
    a.secs > b.secs || (a.secs == b.secs && a.nanos > b.nanos)
}

impl Timestamp {
    /// Whether this instant is strictly later than `other`.
    pub fn is_later_than(&self, other: &Timestamp) -> (r: bool)
        ensures
            r == later_than(*self, *other),
    {
        self.secs > other.secs || (self.secs == other.secs && self.nanos > other.nanos)
    }
}

/// The values recorded under one request header name, in the order the
/// request carried them.
#[derive(Debug)]
pub struct HeaderEntry {
    pub name: String,
    pub values: Vec<String>,
}

/// The body of a payload creation request. `tags` is the JSON text of the
/// request's `tags` member, `null` when the member was absent.
#[derive(Debug)]
pub struct CreatePayloadRequest {
    pub name: Option<String>,
    pub description: Option<String>,
    pub tags: String,
    pub expires_at: Option<Timestamp>,
}

/// The answer to a payload creation request.
#[derive(Debug)]
pub struct CreatePayloadResponse {
    pub id: u128,
    pub payload_id: String,
    pub payload: String,
    pub expires_at: Option<Timestamp>,
}

/// A registered payload. `payload` is its callback hostname and `tags` the
/// JSON text of its tags.
#[derive(Debug)]
pub struct Payload {
    pub id: u128,
    pub payload_id: String,
    pub payload: String,
    pub name: Option<String>,
    pub description: Option<String>,
    pub tags: String,
    pub created_at: Timestamp,
    pub expires_at: Option<Timestamp>,
}

/// A recorded interaction as read back from the store. `headers` and
/// `tls_metadata` are JSON texts.
#[derive(Debug)]
pub struct Interaction {
    pub id: u128,
    pub payload_id: String,
    pub interaction_type: String,
    pub source_ip: Option<String>,
    pub protocol: String,
    pub method: Option<String>,
    pub path: Option<String>,
    pub query_type: Option<String>,
    pub headers: String,
    pub body: Option<String>,
    pub tls_metadata: String,
    pub created_at: Timestamp,
}

/// An interaction about to be recorded. `headers` becomes the JSON object
/// mapping each header name to the array of its values (an empty object
/// when there are none); `tls_enabled` becomes the JSON object
/// `{"enabled": b}` for `Some(b)` and the empty object for `None`.
#[derive(Debug)]
pub struct NewInteraction {
    pub payload_id: String,
    pub interaction_type: String,
    pub source_ip: Option<String>,
    pub protocol: String,
    pub method: Option<String>,
    pub path: Option<String>,
    pub query_type: Option<String>,
    pub headers: Vec<HeaderEntry>,
    pub body: Option<String>,
    pub tls_enabled: Option<bool>,
}

/// The answer of the health endpoint.
#[derive(Debug)]
pub struct HealthResponse {
    pub status: String,
    pub payload_count: i64,
    pub interaction_count: i64,
}

/// Counters over the store: all payloads, all interactions, and the HTTP(S)
/// and DNS interactions of the last minute.
#[derive(Debug, Clone, Copy, PartialEq, Eq, Structural)]
pub struct StatsResponse {
    pub payload_count: i64,
    pub interaction_count: i64,
    pub requests_per_minute: i64,
    pub dns_queries_per_minute: i64,
}

} // verus!
