//! What the store reads and writes, apart from the SQL itself: converting
//! stored rows into records, deciding whether a payload is still active,
//! and preparing a new payload.

use vstd::prelude::*;
use rand::RngCore;
use crate::text::{chars_of, string_of, same_chars};
use crate::payloads::{fqdn, fqdn_spec, generate_payload_id, is_generated_payload_id};
use crate::models::{Payload, Interaction, Timestamp, CreatePayloadRequest, later_than};
use crate::config::DatabaseConfig;

verus! {

/// Why a stored row could not be read back, or the clock could not be read.
#[derive(Debug, Clone, PartialEq, Eq)]
pub enum StoreError {
    /// An identifier column does not hold a UUID.
    InvalidUuid,
    /// A JSON column does not hold a JSON document; the parser's message.
    InvalidJson(String),
    /// A time column does not hold an RFC 3339 instant; the parser's message.
    InvalidTime(String),
    /// The system clock reads an instant that a timestamp cannot hold.
    ClockOutOfRange,
}

impl StoreError {
    /// The text that describes the error.
    pub open spec fn describe(self) -> Seq<char> {
        match self {
            StoreError::InvalidUuid => "invalid UUID in database"@,
            StoreError::InvalidJson(m) => m@,
            StoreError::InvalidTime(m) => m@,
            StoreError::ClockOutOfRange => "system clock out of range"@,
        }
    }

    /// The text that describes the error.
    pub fn message(&self) -> (m: String)
        ensures
            m@ == self.describe(),
    {
        match self {
            StoreError::InvalidUuid => "invalid UUID in database".to_owned(),
            StoreError::InvalidJson(m) => string_of(&chars_of(m.as_str())),
            StoreError::InvalidTime(m) => string_of(&chars_of(m.as_str())),
            StoreError::ClockOutOfRange => "system clock out of range".to_owned(),
        }
    }
}

/// The value of the UUID that a text spells, if it spells one.
pub uninterp spec fn uuid_value(text: Seq<char>) -> Option<u128>;

/// Parses a UUID (`uuid::Uuid::parse_str`, then `as_u128`). Claimed: the
/// result is `uuid_value` of the text.
#[verifier::external_body]
fn parse_uuid(text: &str) -> (r: Option<u128>)
    ensures
        r == uuid_value(text@),
{
    uuid::Uuid::parse_str(text).ok().map(|id| id.as_u128())
}

/// The number that bytes spell in big-endian order.
pub open spec fn be_value(bytes: Seq<u8>) -> nat
    decreases bytes.len(),
{
    if bytes.len() == 0 {
        0
    } else {
        be_value(bytes.drop_last()) * 256 + bytes.last() as nat
    }
}

/// The version 4 UUID made of sixteen random bytes: byte 6 keeps its low
/// four bits under version `4`, byte 8 keeps its low six bits under the
/// RFC 4122 variant bits `10`, and the bytes are read big-endian.
pub open spec fn uuid_v4_value(bytes: Seq<u8>) -> u128 {
    be_value(bytes.update(6, (bytes[6] & 0x0fu8) | 0x40u8).update(8, (bytes[8] & 0x3fu8) | 0x80u8)) as u128
}

/// Sixteen bytes from the operating system's random source
/// (`OsRng.try_fill_bytes`), or `None` when the source fails. Nothing is
/// claimed of the bytes: they are chance.
#[verifier::external_body]
fn random_bytes() -> Option<[u8; 16]> {
    let mut bytes = [0u8; 16];
    rand::rngs::OsRng.try_fill_bytes(&mut bytes).ok()?;
    Some(bytes)
}

/// The version 4 UUID made of random bytes
/// (`uuid::Builder::from_random_bytes(..).into_uuid().as_u128()`).
/// Claimed: the result is `uuid_v4_value` of the bytes.
#[verifier::external_body]
fn uuid_from_random_bytes(bytes: [u8; 16]) -> (id: u128)
    ensures
        id == uuid_v4_value(bytes@),
{
    uuid::Builder::from_random_bytes(bytes).into_uuid().as_u128()
}

/// A fresh random version 4 UUID, or `None` when the operating system's
/// random source fails.
pub fn random_uuid() -> (id: Option<u128>)
    ensures
        id matches Some(v) ==> exists|b: Seq<u8>| b.len() == 16 && v == uuid_v4_value(b),
{
    match random_bytes() {
        Some(bytes) => {
            let v = uuid_from_random_bytes(bytes);
            assert(bytes@.len() == 16 && v == uuid_v4_value(bytes@));
            Some(v)
        },
        None => None,
    }
}

/// Whether a text fails to parse as JSON, and the parser's message if so.
pub uninterp spec fn json_parse_error(text: Seq<char>) -> Option<Seq<char>>;

/// Parses a text as JSON (`serde_json::from_str::<Value>`) and gives the
/// error's message when it fails. Claimed: the result is
/// `json_parse_error` of the text.
#[verifier::external_body]
fn check_json(text: &str) -> (r: Option<String>)
    ensures
        match r {
            None => json_parse_error(text@) is None,
            Some(m) => json_parse_error(text@) == Some(m@),
        },
{
    serde_json::from_str::<serde_json::Value>(text).err().map(|e| e.to_string())
}

/// The UTC instant that an RFC 3339 text denotes, or the parser's message.
pub uninterp spec fn rfc3339_parse(text: Seq<char>) -> Result<Timestamp, Seq<char>>;

/// Parses an RFC 3339 date and time and converts it to UTC
/// (`chrono::DateTime::parse_from_rfc3339`, `with_timezone(&Utc)`, then
/// `timestamp` and `timestamp_subsec_nanos`), or gives the parser's
/// message. Claimed: the result is `rfc3339_parse` of the text.
#[verifier::external_body]
fn parse_time(text: &str) -> (r: Result<Timestamp, String>)
    ensures
        match r {
            Ok(t) => rfc3339_parse(text@) == Ok::<Timestamp, Seq<char>>(t),
            Err(m) => rfc3339_parse(text@) == Err::<Timestamp, Seq<char>>(m@),
        },
{
    match chrono::DateTime::parse_from_rfc3339(text) {
        Ok(t) => {
            let t = t.with_timezone(&chrono::Utc);
            Ok(Timestamp { secs: t.timestamp(), nanos: t.timestamp_subsec_nanos() })
        },
        Err(e) => Err(e.to_string()),
    }
}

/// The std type of a system clock reading.
#[verifier::external_type_specification]
#[verifier::external_body]
pub struct ExSystemTime(std::time::SystemTime);

/// Reads the system clock (`std::time::SystemTime::now`). Nothing is
/// claimed of the reading: it is the clock's.
#[verifier::external_body]
fn clock_now() -> std::time::SystemTime {
    std::time::SystemTime::now()
}

/// How far a clock reading lies from the Unix epoch
/// (`SystemTime::duration_since(UNIX_EPOCH)`), as whole seconds and
/// nanoseconds: `Ok` when at or after the epoch, `Err` with the distance
/// before it. Claimed: the nanoseconds are below one billion. The reading is
/// opaque here, so nothing ties the distance to it.
#[verifier::external_body]
fn since_unix_epoch(t: &std::time::SystemTime) -> (r: Result<(u64, u32), (u64, u32)>)
    ensures
        match r {
            Ok((_, n)) => n < 1_000_000_000,
            Err((_, n)) => n < 1_000_000_000,
        },
{
    match t.duration_since(std::time::UNIX_EPOCH) {
        Ok(d) => Ok((d.as_secs(), d.subsec_nanos())),
        Err(e) => Err((e.duration().as_secs(), e.duration().subsec_nanos())),
    }
}

/// The instant of a distance from the Unix epoch (after it for `Ok`, before
/// it for `Err`), when its seconds fit a timestamp.
pub open spec fn clock_instant(reading: Result<(u64, u32), (u64, u32)>) -> Option<Timestamp> {
    match reading {
        Ok((s, n)) => if s <= i64::MAX {
            Some(Timestamp { secs: s as i64, nanos: n })
        } else {
            None
        },
        Err((s, n)) => if n == 0 {
            if s <= 0x8000_0000_0000_0000 {
                Some(Timestamp { secs: (-(s as int)) as i64, nanos: 0 })
            } else {
                None
            }
        } else if s < 0x8000_0000_0000_0000 {
            Some(Timestamp { secs: (-(s as int) - 1) as i64, nanos: (1_000_000_000 - n) as u32 })
        } else {
            None
        },
    }
}

/// The instant of a distance from the Unix epoch (see `clock_instant`).
pub fn instant_of_reading(reading: Result<(u64, u32), (u64, u32)>) -> (r: Option<Timestamp>)
    requires
        match reading {
            Ok((_, n)) => n < 1_000_000_000,
            Err((_, n)) => n < 1_000_000_000,
        },
    ensures
        r == clock_instant(reading),
        r matches Some(t) ==> t.nanos < 1_000_000_000,
{
    match reading {
        Ok((s, n)) => if s <= i64::MAX as u64 {
            Some(Timestamp { secs: s as i64, nanos: n })
        } else {
            None
        },
        Err((s, n)) => if n == 0 {
            if s <= 0x8000_0000_0000_0000u64 {
                let v: i128 = -(s as i128);
                Some(Timestamp { secs: v as i64, nanos: 0 })
            } else {
                None
            }
        } else if s < 0x8000_0000_0000_0000u64 {
            let v: i128 = -(s as i128) - 1;
            Some(Timestamp { secs: v as i64, nanos: 1_000_000_000 - n })
        } else {
            None
        },
    }
}

/// The current UTC time from the system clock, or `None` when the clock
/// reads an instant that a timestamp cannot hold. Which instant is the
/// clock's.
pub fn now() -> (r: Option<Timestamp>)
    ensures
        r matches Some(t) ==> t.nanos < 1_000_000_000,
{
    let t = clock_now();
    instant_of_reading(since_unix_epoch(&t))
}

/// The instant one minute before `t`.
pub fn minute_before(t: Timestamp) -> (r: Timestamp)
    requires
        t.secs >= i64::MIN + 60,
    ensures
        r.secs == t.secs - 60,
        r.nanos == t.nanos,
{
    Timestamp { secs: t.secs - 60, nanos: t.nanos }
}

/// Whether a payload with the stored expiry is active at `now`: always when
/// it has no expiry, otherwise when the expiry is later than `now`; an
/// expiry that is not an RFC 3339 instant is the parser's error.
pub fn payload_active_at(expires_at: Option<&str>, now: Timestamp) -> (r: Result<bool, StoreError>)
    ensures
        match expires_at {
            None => r == Ok::<bool, StoreError>(true),
            Some(text) => match rfc3339_parse(text@) {
                Err(m) => r matches Err(StoreError::InvalidTime(msg)) && msg@ == m,
                Ok(t) => r == Ok::<bool, StoreError>(later_than(t, now)),
            },
        },
{
    match expires_at {
        None => Ok(true),
        Some(text) => match parse_time(text) {
            Err(m) => Err(StoreError::InvalidTime(m)),
            Ok(t) => Ok(t.is_later_than(&now)),
        },
    }
}

/// Whether a payload with the stored expiry is active now. Without an
/// expiry it is; an unreadable expiry is the parser's error; an unreadable
/// clock is `ClockOutOfRange`; otherwise the answer is that of
/// `payload_active_at` at the instant the clock reads.
pub fn payload_active(expires_at: Option<&str>) -> (r: Result<bool, StoreError>)
    ensures
        match expires_at {
            None => r == Ok::<bool, StoreError>(true),
            Some(text) => match rfc3339_parse(text@) {
                Err(m) => r matches Err(StoreError::InvalidTime(msg)) && msg@ == m,
                Ok(expiry) => r == Err::<bool, StoreError>(StoreError::ClockOutOfRange) || exists|
                    t: Timestamp,
                | t.nanos < 1_000_000_000 && r == Ok::<bool, StoreError>(later_than(expiry, t)),
            },
        },
{
    match expires_at {
        None => Ok(true),
        Some(text) => match now() {
            Some(t) => {
                let r = payload_active_at(Some(text), t);
                assert(r is Ok ==> t.nanos < 1_000_000_000 && r == Ok::<bool, StoreError>(
                    later_than(rfc3339_parse(text@)->Ok_0, t),
                ));
                r
            },
            None => match parse_time(text) {
                Err(m) => Err(StoreError::InvalidTime(m)),
                Ok(_) => Err(StoreError::ClockOutOfRange),
            },
        },
    }
}

/// The error of reading a row back, as plain values: which column kind
/// failed, with the parser's message.
pub enum RowError {
    Uuid,
    Json(Seq<char>),
    Time(Seq<char>),
}

impl RowError {
    /// Whether a store error is this row error.
    pub open spec fn matches(self, e: StoreError) -> bool {
        match self {
            RowError::Uuid => e is InvalidUuid,
            RowError::Json(m) => e matches StoreError::InvalidJson(s) && s@ == m,
            RowError::Time(m) => e matches StoreError::InvalidTime(s) && s@ == m,
        }
    }
}

/// A stored payload row, as text columns.
#[derive(Debug)]
pub struct PayloadRow {
    pub id: String,
    pub payload_id: String,
    pub name: Option<String>,
    pub description: Option<String>,
    pub tags: String,
    pub created_at: String,
    pub expires_at: Option<String>,
}

/// A stored interaction row, as text columns.
#[derive(Debug)]
pub struct InteractionRow {
    pub id: String,
    pub payload_id: String,
    pub interaction_type: String,
    pub source_ip: Option<String>,
    pub protocol: String,
    pub method: Option<String>,
    pub path: Option<String>,
    pub query_type: Option<String>,
    pub headers: String,
    pub body: Option<String>,
    pub tls_metadata: String,
    pub created_at: String,
}

/// The error, if any, of reading a payload row back, checked column by
/// column: identifier, tags, creation time, expiry.
pub open spec fn payload_row_error(row: PayloadRow) -> Option<RowError> {
    if uuid_value(row.id@) is None {
        Some(RowError::Uuid)
    } else if let Some(m) = json_parse_error(row.tags@) {
        Some(RowError::Json(m))
    } else if let Err(m) = rfc3339_parse(row.created_at@) {
        Some(RowError::Time(m))
    } else if row.expires_at matches Some(e) && rfc3339_parse(e@) is Err {
        Some(RowError::Time(rfc3339_parse(row.expires_at->0@)->Err_0))
    } else {
        None
    }
}

/// Reads a payload row back as a payload whose hostname is under the root
/// domain.
pub fn payload_from_row(row: PayloadRow, root_domain: &str) -> (r: Result<Payload, StoreError>)
    ensures
        (uuid_value(row.id@) is Some && json_parse_error(row.tags@) is None && rfc3339_parse(
            row.created_at@,
        ) is Ok && (row.expires_at matches Some(e) ==> rfc3339_parse(e@) is Ok)) ==> r is Ok,
        match payload_row_error(row) {
            Some(e) => r matches Err(err) && e.matches(err),
            None => r matches Ok(p) && {
                &&& Some(p.id) == uuid_value(row.id@)
                &&& p.payload_id@ == row.payload_id@
                &&& p.payload@ == fqdn_spec(row.payload_id@, root_domain@)
                &&& p.name == row.name
                &&& p.description == row.description
                &&& p.tags@ == row.tags@
                &&& Ok::<Timestamp, Seq<char>>(p.created_at) == rfc3339_parse(row.created_at@)
                &&& match row.expires_at {
                    None => p.expires_at is None,
                    Some(e) => p.expires_at matches Some(t) && Ok::<Timestamp, Seq<char>>(t) == rfc3339_parse(e@),
                }
            },
        },
{
    let id = match parse_uuid(row.id.as_str()) {
        Some(id) => id,
        None => return Err(StoreError::InvalidUuid),
    };
    let payload = fqdn(row.payload_id.as_str(), root_domain);
    if let Some(m) = check_json(row.tags.as_str()) {
        return Err(StoreError::InvalidJson(m));
    }
    let created_at = match parse_time(row.created_at.as_str()) {
        Ok(t) => t,
        Err(m) => return Err(StoreError::InvalidTime(m)),
    };
    let expires_at = match &row.expires_at {
        None => None,
        Some(e) => match parse_time(e.as_str()) {
            Ok(t) => Some(t),
            Err(m) => return Err(StoreError::InvalidTime(m)),
        },
    };
    Ok(Payload {
        id,
        payload_id: row.payload_id,
        payload,
        name: row.name,
        description: row.description,
        tags: row.tags,
        created_at,
        expires_at,
    })
}

/// The error, if any, of reading an interaction row back, checked column by
/// column: identifier, headers, TLS metadata, creation time.
pub open spec fn interaction_row_error(row: InteractionRow) -> Option<RowError> {
    if uuid_value(row.id@) is None {
        Some(RowError::Uuid)
    } else if let Some(m) = json_parse_error(row.headers@) {
        Some(RowError::Json(m))
    } else if let Some(m) = json_parse_error(row.tls_metadata@) {
        Some(RowError::Json(m))
    } else if let Err(m) = rfc3339_parse(row.created_at@) {
        Some(RowError::Time(m))
    } else {
        None
    }
}

/// Reads an interaction row back as an interaction.
pub fn interaction_from_row(row: InteractionRow) -> (r: Result<Interaction, StoreError>)
    ensures
        (uuid_value(row.id@) is Some && json_parse_error(row.headers@) is None && json_parse_error(
            row.tls_metadata@,
        ) is None && rfc3339_parse(row.created_at@) is Ok) ==> r is Ok,
        match interaction_row_error(row) {
            Some(e) => r matches Err(err) && e.matches(err),
            None => r matches Ok(i) && {
                &&& Some(i.id) == uuid_value(row.id@)
                &&& i.payload_id == row.payload_id
                &&& i.interaction_type == row.interaction_type
                &&& i.source_ip == row.source_ip
                &&& i.protocol == row.protocol
                &&& i.method == row.method
                &&& i.path == row.path
                &&& i.query_type == row.query_type
                &&& i.headers == row.headers
                &&& i.body == row.body
                &&& i.tls_metadata == row.tls_metadata
                &&& Ok::<Timestamp, Seq<char>>(i.created_at) == rfc3339_parse(row.created_at@)
            },
        },
{
    let id = match parse_uuid(row.id.as_str()) {
        Some(id) => id,
        None => return Err(StoreError::InvalidUuid),
    };
    if let Some(m) = check_json(row.headers.as_str()) {
        return Err(StoreError::InvalidJson(m));
    }
    if let Some(m) = check_json(row.tls_metadata.as_str()) {
        return Err(StoreError::InvalidJson(m));
    }
    let created_at = match parse_time(row.created_at.as_str()) {
        Ok(t) => t,
        Err(m) => return Err(StoreError::InvalidTime(m)),
    };
    Ok(Interaction {
        id,
        payload_id: row.payload_id,
        interaction_type: row.interaction_type,
        source_ip: row.source_ip,
        protocol: row.protocol,
        method: row.method,
        path: row.path,
        query_type: row.query_type,
        headers: row.headers,
        body: row.body,
        tls_metadata: row.tls_metadata,
        created_at,
    })
}

/// The tags stored for a request's tags: the empty object `{}` in place of
/// `null`, otherwise unchanged.
pub open spec fn stored_tags(tags: Seq<char>) -> Seq<char> {
    if tags == "null"@ {
        "{}"@
    } else {
        tags
    }
}

/// A request's tags are stored as given, except JSON `null`, which is
/// stored as the empty object.
pub proof fn law_tags_kept_unless_null(tags: Seq<char>)
    ensures
        tags != "null"@ ==> stored_tags(tags) == tags,
        stored_tags("null"@) == "{}"@,
{
}

/// The text of an optional column.
pub open spec fn column_text(c: Option<String>) -> Option<Seq<char>> {
    match c {
        Some(s) => Some(s@),
        None => None,
    }
}

/// A payload row reads back whenever its identifier is a UUID, its tags are
/// JSON and its times are RFC 3339, whatever its payload identifier, name
/// and description hold.
pub proof fn law_payload_row_reads_back(row: PayloadRow)
    requires
        uuid_value(row.id@) is Some,
        json_parse_error(row.tags@) is None,
        rfc3339_parse(row.created_at@) is Ok,
        forall|e: Seq<char>| column_text(row.expires_at) == Some(e) ==> rfc3339_parse(e) is Ok,
    ensures
        payload_row_error(row) is None,
{
    if let Some(e) = row.expires_at {
        assert(column_text(row.expires_at) == Some(e@));
    }
}

/// Whether a payload row fails to read back, and why, depends only on its
/// identifier, tags and times: rows that agree on those agree on it.
pub proof fn law_payload_row_error_ignores_plain_columns(a: PayloadRow, b: PayloadRow)
    requires
        a.id@ == b.id@,
        a.tags@ == b.tags@,
        a.created_at@ == b.created_at@,
        column_text(a.expires_at) == column_text(b.expires_at),
    ensures
        payload_row_error(a) == payload_row_error(b),
{
    if let Some(x) = a.expires_at {
        if let Some(y) = b.expires_at {
            assert(x@ == y@);
        }
    }
}

/// An interaction row reads back whenever its identifier is a UUID, its
/// headers and TLS metadata are JSON and its creation time is RFC 3339,
/// whatever its body and other plain columns hold.
pub proof fn law_interaction_row_reads_back(row: InteractionRow)
    requires
        uuid_value(row.id@) is Some,
        json_parse_error(row.headers@) is None,
        json_parse_error(row.tls_metadata@) is None,
        rfc3339_parse(row.created_at@) is Ok,
    ensures
        interaction_row_error(row) is None,
{
}

/// Whether an interaction row fails to read back, and why, depends only on
/// its identifier, headers, TLS metadata and creation time.
pub proof fn law_interaction_row_error_ignores_plain_columns(a: InteractionRow, b: InteractionRow)
    requires
        a.id@ == b.id@,
        a.headers@ == b.headers@,
        a.tls_metadata@ == b.tls_metadata@,
        a.created_at@ == b.created_at@,
    ensures
        interaction_row_error(a) == interaction_row_error(b),
{
}

/// The payload that a creation request registers, given its identifier,
/// payload identifier and creation time: hostname under the root domain,
/// the request's name, description and expiry, and its tags with `null`
/// replaced by `{}`.
pub fn assemble_payload(
    root_domain: &str,
    request: CreatePayloadRequest,
    id: u128,
    payload_id: String,
    created_at: Timestamp,
) -> (p: Payload)
    ensures
        p.id == id,
        p.payload_id@ == payload_id@,
        p.payload@ == fqdn_spec(payload_id@, root_domain@),
        p.name == request.name,
        p.description == request.description,
        p.tags@ == stored_tags(request.tags@),
        request.tags@ != "null"@ ==> p.tags@ == request.tags@,
        request.tags@ == "null"@ ==> p.tags@ == "{}"@,
        p.created_at == created_at,
        p.expires_at == request.expires_at,
{
    let tags = if same_chars(&chars_of(request.tags.as_str()), &chars_of("null")) {
        "{}".to_owned()
    } else {
        request.tags
    };
    let payload = fqdn(payload_id.as_str(), root_domain);
    Payload {
        id,
        payload_id,
        payload,
        name: request.name,
        description: request.description,
        tags,
        created_at,
        expires_at: request.expires_at,
    }
}

/// A new payload for a creation request: a random version 4 UUID, a fresh
/// generated payload identifier and the current time, assembled as by
/// `assemble_payload`; `None` when the random source or the clock fails.
pub fn prepare_payload(root_domain: &str, request: CreatePayloadRequest) -> (r: Option<Payload>)
    ensures
        r matches Some(p) ==> {
            &&& exists|b: Seq<u8>| b.len() == 16 && p.id == uuid_v4_value(b)
            &&& is_generated_payload_id(p.payload_id@)
            &&& p.payload@ == fqdn_spec(p.payload_id@, root_domain@)
            &&& p.name == request.name
            &&& p.description == request.description
            &&& p.tags@ == stored_tags(request.tags@)
            &&& p.created_at.nanos < 1_000_000_000
            &&& p.expires_at == request.expires_at
        },
{
    let id = match random_uuid() {
        Some(id) => id,
        None => return None,
    };
    let payload_id = match generate_payload_id() {
        Some(payload_id) => payload_id,
        None => return None,
    };
    let created_at = match now() {
        Some(t) => t,
        None => return None,
    };
    Some(assemble_payload(root_domain, request, id, payload_id, created_at))
}

/// Why the store cannot be opened.
#[derive(Debug, Clone, PartialEq, Eq)]
pub enum ConnectError {
    /// The configured driver is not `sqlite`; the driver's name.
    UnsupportedDriver(String),
}

/// The connection URL of the configured store: `sqlite://<path>?mode=rwc`,
/// or the unsupported-driver error when the driver is not `sqlite`.
pub fn sqlite_url(config: &DatabaseConfig) -> (r: Result<String, ConnectError>)
    ensures
        config.driver@ != "sqlite"@ <==> r is Err,
        r matches Err(ConnectError::UnsupportedDriver(d)) ==> d@ == config.driver@,
        r matches Ok(url) ==> url@ == "sqlite://"@ + config.path@ + "?mode=rwc"@,
{
    if !same_chars(&chars_of(config.driver.as_str()), &chars_of("sqlite")) {
        return Err(ConnectError::UnsupportedDriver(string_of(&chars_of(config.driver.as_str()))));
    }
    let mut url = chars_of("sqlite://");
    crate::text::append_chars(&mut url, &chars_of(config.path.as_str()));
    crate::text::append_chars(&mut url, &chars_of("?mode=rwc"));
    Ok(string_of(&url))
}

} // verus!
