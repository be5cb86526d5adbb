//! The management API: authorisation, error replies, and the bodies of the
//! health, metrics and payload creation answers.

use vstd::prelude::*;
use crate::text::{chars_of, string_of, append_chars, same_chars, signed_decimal, i64_decimal};
use crate::listeners::header_text;
use crate::listeners::header_text_spec;
use crate::models::{CreatePayloadResponse, HealthResponse, Interaction, Payload, StatsResponse};

verus! {

/// Status of a request without the right bearer key.
pub const STATUS_UNAUTHORIZED: u16 = 401;

/// Status of a request for a record that does not exist.
pub const STATUS_NOT_FOUND: u16 = 404;

/// Status of a request that the store failed to serve.
pub const STATUS_INTERNAL_ERROR: u16 = 500;

/// An API error: the status code and the message of its JSON body
/// `{"error": message}`.
#[derive(Debug)]
pub struct ApiError {
    pub status: u16,
    pub message: String,
}

impl ApiError {
    /// The error of a request without the right bearer key: 401 `unauthorized`.
    pub fn unauthorized() -> (e: ApiError)
        ensures
            e.status == STATUS_UNAUTHORIZED,
            e.message@ == "unauthorized"@,
    {
        ApiError { status: STATUS_UNAUTHORIZED, message: "unauthorized".to_owned() }
    }

    /// The error of a request for a missing record: 404 with the message.
    pub fn not_found(message: &str) -> (e: ApiError)
        ensures
            e.status == STATUS_NOT_FOUND,
            e.message@ == message@,
    {
        ApiError { status: STATUS_NOT_FOUND, message: message.to_owned() }
    }

    /// The error of a request that the store failed to serve: 500 with the
    /// failure's message.
    pub fn internal(message: String) -> (e: ApiError)
        ensures
            e.status == STATUS_INTERNAL_ERROR,
            e.message@ == message@,
    {
        ApiError { status: STATUS_INTERNAL_ERROR, message }
    }
}

/// The `Authorization` header value that the API key admits.
pub open spec fn bearer(api_key: Seq<char>) -> Seq<char> {
    "Bearer "@ + api_key
}

/// Checks a request's `Authorization` header (its raw bytes, if present)
/// against the API key: admitted exactly when the header is visible ASCII
/// and reads `Bearer <api_key>`; otherwise the 401 error.
pub fn authorize(api_key: &str, authorization: Option<&[u8]>) -> (r: Result<(), ApiError>)
    ensures
        r is Ok <==> (authorization matches Some(b) && header_text_spec(b@) == Some(bearer(api_key@))),
        r matches Err(e) ==> e.status == STATUS_UNAUTHORIZED && e.message@ == "unauthorized"@,
{
    let mut expected = chars_of("Bearer ");
    append_chars(&mut expected, &chars_of(api_key));
    let value = match authorization {
        None => return Err(ApiError::unauthorized()),
        Some(bytes) => match header_text(bytes) {
            None => return Err(ApiError::unauthorized()),
            Some(text) => text,
        },
    };
    if same_chars(&chars_of(value.as_str()), &expected) {
        Ok(())
    } else {
        Err(ApiError::unauthorized())
    }
}

/// One gauge of the metrics text: its type line and its sample line.
pub open spec fn gauge(name: Seq<char>, value: i64) -> Seq<char> {
    "# TYPE "@ + name + " gauge\n"@ + name + " "@ + signed_decimal(value as int) + "\n"@
}

/// The metrics text: the four gauges of the statistics, in order.
pub open spec fn metrics_text(stats: StatsResponse) -> Seq<char> {
    gauge("hexbuffer_payload_count"@, stats.payload_count) + gauge(
        "hexbuffer_interaction_count"@,
        stats.interaction_count,
    ) + gauge("hexbuffer_requests_per_minute"@, stats.requests_per_minute) + gauge(
        "hexbuffer_dns_queries_per_minute"@,
        stats.dns_queries_per_minute,
    )
}

fn push_gauge(out: &mut Vec<char>, name: &str, value: i64)
    ensures
        final(out)@ == old(out)@ + gauge(name@, value),
{
    let ghost start = out@;
    append_chars(out, &chars_of("# TYPE "));
    append_chars(out, &chars_of(name));
    append_chars(out, &chars_of(" gauge\n"));
    append_chars(out, &chars_of(name));
    append_chars(out, &chars_of(" "));
    append_chars(out, &chars_of(i64_decimal(value).as_str()));
    append_chars(out, &chars_of("\n"));
    assert(out@ =~= start + gauge(name@, value));
}

/// The body of the metrics endpoint.
pub fn metrics_body(stats: &StatsResponse) -> (body: String)
    ensures
        body@ == metrics_text(*stats),
{
    let mut out: Vec<char> = Vec::new();
    push_gauge(&mut out, "hexbuffer_payload_count", stats.payload_count);
    push_gauge(&mut out, "hexbuffer_interaction_count", stats.interaction_count);
    push_gauge(&mut out, "hexbuffer_requests_per_minute", stats.requests_per_minute);
    push_gauge(&mut out, "hexbuffer_dns_queries_per_minute", stats.dns_queries_per_minute);
    assert(out@ =~= metrics_text(*stats));
    string_of(&out)
}

/// The answer of the health endpoint: status `ok` and the two totals.
pub fn health_response(stats: &StatsResponse) -> (h: HealthResponse)
    ensures
        h.status@ == "ok"@,
        h.payload_count == stats.payload_count,
        h.interaction_count == stats.interaction_count,
{
    HealthResponse {
        status: "ok".to_owned(),
        payload_count: stats.payload_count,
        interaction_count: stats.interaction_count,
    }
}

/// The answer to a payload creation: the payload's identifiers, hostname
/// and expiry.
pub fn create_payload_response(payload: Payload) -> (r: CreatePayloadResponse)
    ensures
        r.id == payload.id,
        r.payload_id == payload.payload_id,
        r.payload == payload.payload,
        r.expires_at == payload.expires_at,
{
    CreatePayloadResponse {
        id: payload.id,
        payload_id: payload.payload_id,
        payload: payload.payload,
        expires_at: payload.expires_at,
    }
}

/// The answer for one interaction: the interaction when it exists,
/// otherwise 404 `interaction not found`.
pub fn interaction_detail(found: Option<Interaction>) -> (r: Result<Interaction, ApiError>)
    ensures
        match found {
            Some(i) => r == Ok::<Interaction, ApiError>(i),
            None => r matches Err(e) && e.status == STATUS_NOT_FOUND && e.message@ == "interaction not found"@,
        },
{
    match found {
        Some(i) => Ok(i),
        None => Err(ApiError::not_found("interaction not found")),
    }
}

} // verus!
