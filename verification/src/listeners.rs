//! HTTP callbacks: which payload a request addresses, how it is answered,
//! and what it records.

use vstd::prelude::*;
use base64::Engine;
use crate::text::{chars_of, string_of, take_vec, utf8_lossy, lossy_text, append_chars, same_text};
use crate::payloads::{payload_id_of, extract_payload_id, fqdn_spec, is_generated_payload_id, law_generated_id_round_trips};
use crate::text::trim_trailing_dots;
use crate::models::{HeaderEntry, NewInteraction};

verus! {

/// A byte that an HTTP header value may show as text: visible ASCII or tab.
pub open spec fn is_visible_ascii(b: u8) -> bool {
    (32 <= b && b < 127) || b == 9
}

/// The text of a header value whose bytes are all visible ASCII or tab.
pub open spec fn header_text_spec(bytes: Seq<u8>) -> Option<Seq<char>> {
    if forall|i: int| 0 <= i < bytes.len() ==> is_visible_ascii(#[trigger] bytes[i]) {
        Some(bytes.map_values(|b: u8| b as char))
    } else {
        None
    }
}

/// The text of a header value, when all of its bytes are visible ASCII or tab.
pub fn header_text(bytes: &[u8]) -> (r: Option<String>)
    ensures
        match r {
            Some(s) => header_text_spec(bytes@) == Some(s@),
            None => header_text_spec(bytes@) is None,
        },
{
    let mut chars: Vec<char> = Vec::new();
    let mut i: usize = 0;
    while i < bytes.len()
        invariant
            i <= bytes.len(),
            chars@ == bytes@.take(i as int).map_values(|b: u8| b as char),
            forall|j: int| 0 <= j < i ==> is_visible_ascii(#[trigger] bytes@[j]),
        decreases bytes.len() - i,
    {
        let b: u8 = bytes[i];
        if !((32 <= b && b < 127) || b == 9) {
            assert(!is_visible_ascii(bytes@[i as int]));
            return None;
        }
        chars.push(b as char);
        i = i + 1;
        assert(chars@ =~= bytes@.take(i as int).map_values(|b: u8| b as char));
    }
    assert(bytes@.take(bytes.len() as int) =~= bytes@);
    Some(string_of(&chars))
}

/// The part of `s` before its first `':'` (all of `s` when it has none).
pub open spec fn before_colon(s: Seq<char>) -> Seq<char> {
    s.take(colon_from(s, 0))
}

/// The index of the first `':'` of `s` at or after `i`, or `s.len()`.
pub open spec fn colon_from(s: Seq<char>, i: int) -> int
    decreases s.len() - i,
{
    if i < 0 || i >= s.len() || s[i] == ':' {
        if i < 0 { 0 } else { i }
    } else {
        colon_from(s, i + 1)
    }
}

/// The host named by a request's `Host` header: the header's text up to its
/// first `':'`, or empty when there is no header or it is not visible ASCII.
pub open spec fn callback_host_spec(host_header: Option<Seq<u8>>) -> Seq<char> {
    match host_header {
        None => Seq::empty(),
        Some(bytes) => match header_text_spec(bytes) {
            None => Seq::empty(),
            Some(text) => before_colon(text),
        },
    }
}

/// The host named by a request's `Host` header (see `callback_host_spec`).
pub fn callback_host(host_header: Option<&[u8]>) -> (host: String)
    ensures
        host@ == callback_host_spec(
            match host_header {
                Some(b) => Some(b@),
                None => None,
            },
        ),
{
    match host_header {
        None => String::new(),
        Some(bytes) => match header_text(bytes) {
            None => String::new(),
            Some(text) => {
                let chars = chars_of(text.as_str());
                let mut end: usize = 0;
                while end < chars.len() && chars[end] != ':'
                    invariant
                        end <= chars.len(),
                        colon_from(chars@, 0) == colon_from(chars@, end as int),
                    decreases chars.len() - end,
                {
                    end = end + 1;
                }
                string_of(&take_vec(&chars, end))
            },
        },
    }
}

/// The character of a six-bit value in the standard base64 alphabet
/// `A`..`Z`, `a`..`z`, `0`..`9`, `+`, `/`.
pub open spec fn base64_char(v: nat) -> char {
    if v < 26 {
        ((65 + v) as u32) as char
    } else if v < 52 {
        ((71 + v) as u32) as char
    } else if v < 62 {
        ((v - 4) as u32) as char
    } else if v == 62 {
        '+'
    } else {
        '/'
    }
}

/// The standard base64 encoding, with padding, of a byte sequence: each
/// group of three bytes, read as a 24-bit big-endian number, gives four
/// characters of six bits each; a final group of one or two bytes is padded
/// with zero bits and its missing characters are `=`.
pub open spec fn base64_standard(bytes: Seq<u8>) -> Seq<char>
    decreases bytes.len(),
{
    if bytes.len() == 0 {
        Seq::empty()
    } else if bytes.len() == 1 {
        let n = bytes[0] as nat * 65536;
        seq![base64_char(n / 262144), base64_char((n / 4096) % 64), '=', '=']
    } else if bytes.len() == 2 {
        let n = bytes[0] as nat * 65536 + bytes[1] as nat * 256;
        seq![base64_char(n / 262144), base64_char((n / 4096) % 64), base64_char((n / 64) % 64), '=']
    } else {
        let n = bytes[0] as nat * 65536 + bytes[1] as nat * 256 + bytes[2] as nat;
        seq![
            base64_char(n / 262144),
            base64_char((n / 4096) % 64),
            base64_char((n / 64) % 64),
            base64_char(n % 64),
        ] + base64_standard(bytes.skip(3))
    }
}

/// Encodes bytes in standard base64 with padding
/// (`base64::engine::general_purpose::STANDARD.encode`). Claimed: the result
/// is `base64_standard` of the bytes.
#[verifier::external_body]
fn base64_text(bytes: &[u8]) -> (s: String)
    ensures
        s@ == base64_standard(bytes@),
{
    base64::engine::general_purpose::STANDARD.encode(bytes)
}

/// How a header value is recorded: its text when it is visible ASCII,
/// otherwise the standard base64 encoding of its bytes.
pub open spec fn recorded_value(bytes: Seq<u8>) -> Seq<char> {
    match header_text_spec(bytes) {
        Some(text) => text,
        None => base64_standard(bytes),
    }
}

/// How a header value is recorded (see `recorded_value`).
pub fn record_header_value(bytes: &[u8]) -> (s: String)
    ensures
        s@ == recorded_value(bytes@),
{
    match header_text(bytes) {
        Some(text) => text,
        None => base64_text(bytes),
    }
}

/// One request header: its name and the raw bytes of its value.
#[derive(Debug)]
pub struct RawHeader {
    pub name: String,
    pub value: Vec<u8>,
}

/// The recorded values, in order, of the headers named `name`.
pub open spec fn values_named(headers: Seq<RawHeader>, name: Seq<char>) -> Seq<Seq<char>>
    decreases headers.len(),
{
    if headers.len() == 0 {
        Seq::empty()
    } else {
        let rest = values_named(headers.drop_last(), name);
        if headers.last().name@ == name {
            rest.push(recorded_value(headers.last().value@))
        } else {
            rest
        }
    }
}

/// The texts of a header entry's values.
pub open spec fn entry_values(e: HeaderEntry) -> Seq<Seq<char>> {
    e.values@.map_values(|v: String| v@)
}

/// Whether some entry has the name.
pub open spec fn has_entry(entries: Seq<HeaderEntry>, name: Seq<char>) -> bool {
    exists|k: int| 0 <= k < entries.len() && #[trigger] entries[k].name@ == name
}

/// Whether some header has the name.
pub open spec fn has_header(headers: Seq<RawHeader>, name: Seq<char>) -> bool {
    exists|i: int| 0 <= i < headers.len() && #[trigger] headers[i].name@ == name
}

/// Header entries group the headers they were made from: no name occurs
/// twice, each name of the headers has an entry, each entry's name is that
/// of some header, and each entry holds the recorded values of the headers
/// with its name, in order.
pub open spec fn groups_headers(entries: Seq<HeaderEntry>, headers: Seq<RawHeader>) -> bool {
    &&& forall|a: int, b: int| 0 <= a < b < entries.len() ==> entries[a].name@ != entries[b].name@
    &&& forall|i: int| 0 <= i < headers.len() ==> has_entry(entries, #[trigger] headers[i].name@)
    &&& forall|k: int| 0 <= k < entries.len() ==> has_header(headers, #[trigger] entries[k].name@)
    &&& forall|k: int| 0 <= k < entries.len() ==> #[trigger] entry_values(entries[k]) == values_named(headers, entries[k].name@)
}

proof fn lemma_values_named_absent(headers: Seq<RawHeader>, name: Seq<char>)
    requires
        forall|i: int| 0 <= i < headers.len() ==> headers[i].name@ != name,
    ensures
        values_named(headers, name) == Seq::<Seq<char>>::empty(),
    decreases headers.len(),
{
    if headers.len() > 0 {
        lemma_values_named_absent(headers.drop_last(), name);
    }
}

proof fn lemma_values_named_push(headers: Seq<RawHeader>, h: RawHeader, name: Seq<char>)
    ensures
        values_named(headers.push(h), name) == if h.name@ == name {
            values_named(headers, name).push(recorded_value(h.value@))
        } else {
            values_named(headers, name)
        },
{
    assert(headers.push(h).drop_last() =~= headers);
}

proof fn lemma_group_existing(
    old: Seq<HeaderEntry>,
    prev: Seq<RawHeader>,
    h: RawHeader,
    k: int,
    e: HeaderEntry,
)
    requires
        groups_headers(old, prev),
        0 <= k < old.len(),
        old[k].name@ == h.name@,
        e.name@ == h.name@,
        entry_values(e) == entry_values(old[k]).push(recorded_value(h.value@)),
    ensures
        groups_headers(old.update(k, e), prev.push(h)),
{
    let new = old.update(k, e);
    let next = prev.push(h);
    assert forall|a: int, b: int| 0 <= a < b < new.len() implies new[a].name@ != new[b].name@ by {
        assert(old[a].name@ == new[a].name@ && old[b].name@ == new[b].name@);
    }
    assert forall|j: int| 0 <= j < next.len() implies has_entry(new, #[trigger] next[j].name@) by {
        if j < prev.len() {
            assert(next[j] == prev[j]);
            assert(has_entry(old, prev[j].name@));
            let m = choose|m: int| 0 <= m < old.len() && #[trigger] old[m].name@ == prev[j].name@;
            assert(new[m].name@ == old[m].name@);
        } else {
            assert(new[k].name@ == next[j].name@);
        }
    }
    assert forall|m: int| 0 <= m < new.len() implies has_header(next, #[trigger] new[m].name@) by {
        assert(new[m].name@ == old[m].name@);
        assert(has_header(prev, old[m].name@));
        let j = choose|j: int| 0 <= j < prev.len() && #[trigger] prev[j].name@ == old[m].name@;
        assert(next[j] == prev[j]);
    }
    assert forall|m: int| 0 <= m < new.len() implies #[trigger] entry_values(new[m]) == values_named(next, new[m].name@) by {
        lemma_values_named_push(prev, h, new[m].name@);
        assert(entry_values(old[m]) == values_named(prev, old[m].name@));
    }
}

proof fn lemma_group_new(old: Seq<HeaderEntry>, prev: Seq<RawHeader>, h: RawHeader, e: HeaderEntry)
    requires
        groups_headers(old, prev),
        !has_entry(old, h.name@),
        e.name@ == h.name@,
        entry_values(e) == seq![recorded_value(h.value@)],
    ensures
        groups_headers(old.push(e), prev.push(h)),
{
    let new = old.push(e);
    let next = prev.push(h);
    let k = old.len() as int;
    assert forall|j: int| 0 <= j < prev.len() implies prev[j].name@ != h.name@ by {
        assert(has_entry(old, prev[j].name@));
    }
    lemma_values_named_absent(prev, h.name@);
    assert forall|a: int, b: int| 0 <= a < b < new.len() implies new[a].name@ != new[b].name@ by {
        assert(new[a] == old[a]);
        if b < k {
            assert(new[b] == old[b]);
        } else {
            assert(old[a].name@ != h.name@);
        }
    }
    assert forall|j: int| 0 <= j < next.len() implies has_entry(new, #[trigger] next[j].name@) by {
        if j < prev.len() {
            assert(next[j] == prev[j]);
            assert(has_entry(old, prev[j].name@));
            let m = choose|m: int| 0 <= m < old.len() && #[trigger] old[m].name@ == prev[j].name@;
            assert(new[m] == old[m]);
        } else {
            assert(new[k].name@ == next[j].name@);
        }
    }
    assert forall|m: int| 0 <= m < new.len() implies has_header(next, #[trigger] new[m].name@) by {
        if m < k {
            assert(new[m] == old[m]);
            assert(has_header(prev, old[m].name@));
            let j = choose|j: int| 0 <= j < prev.len() && #[trigger] prev[j].name@ == old[m].name@;
            assert(next[j] == prev[j]);
        } else {
            assert(next[prev.len() as int] == h);
        }
    }
    assert forall|m: int| 0 <= m < new.len() implies #[trigger] entry_values(new[m]) == values_named(next, new[m].name@) by {
        lemma_values_named_push(prev, h, new[m].name@);
        if m < k {
            assert(new[m] == old[m]);
            assert(entry_values(old[m]) == values_named(prev, old[m].name@));
        }
    }
}

/// The number of values that the entries hold together.
pub open spec fn value_count(entries: Seq<HeaderEntry>) -> nat
    decreases entries.len(),
{
    if entries.len() == 0 {
        0
    } else {
        value_count(entries.drop_last()) + entries.last().values@.len()
    }
}

proof fn lemma_value_count_update(s: Seq<HeaderEntry>, k: int, e: HeaderEntry)
    requires
        0 <= k < s.len(),
    ensures
        value_count(s.update(k, e)) + s[k].values@.len() == value_count(s) + e.values@.len(),
    decreases s.len(),
{
    let u = s.update(k, e);
    if k < s.len() - 1 {
        assert(u.drop_last() =~= s.drop_last().update(k, e));
        lemma_value_count_update(s.drop_last(), k, e);
    } else {
        assert(u.drop_last() =~= s.drop_last());
    }
}

proof fn lemma_value_count_push(s: Seq<HeaderEntry>, e: HeaderEntry)
    ensures
        value_count(s.push(e)) == value_count(s) + e.values@.len(),
{
    assert(s.push(e).drop_last() =~= s);
}

/// Groups request headers by name, each value recorded as by
/// `record_header_value`.
pub fn group_headers(headers: &Vec<RawHeader>) -> (entries: Vec<HeaderEntry>)
    ensures
        groups_headers(entries@, headers@),
        value_count(entries@) == headers@.len(),
{
    let mut entries: Vec<HeaderEntry> = Vec::new();
    let mut i: usize = 0;
    while i < headers.len()
        invariant
            i <= headers.len(),
            groups_headers(entries@, headers@.take(i as int)),
            value_count(entries@) == i,
        decreases headers.len() - i,
    {
        let h = &headers[i];
        let text = record_header_value(h.value.as_slice());
        let ghost prev = headers@.take(i as int);
        let ghost next = headers@.take(i + 1);
        assert(next.drop_last() =~= prev);
        assert(next.last() == headers@[i as int]);
        let mut k: usize = 0;
        while k < entries.len() && entries[k].name != h.name
            invariant
                k <= entries.len(),
                forall|j: int| 0 <= j < k ==> entries@[j].name@ != h.name@,
            decreases entries.len() - k,
        {
            k = k + 1;
        }
        if k < entries.len() {
            let ghost before_all = entries@;
            let mut e = entries.remove(k);
            let ghost old_e = e;
            e.values.push(text);
            assert(entry_values(e) =~= entry_values(old_e).push(recorded_value(h.value@)));
            entries.insert(k, e);
            proof {
                lemma_group_existing(before_all, prev, headers@[i as int], k as int, e);
                lemma_value_count_update(before_all, k as int, e);
                assert(entries@ =~= before_all.update(k as int, e));
                assert(next =~= prev.push(headers@[i as int]));
            }
        } else {
            let mut values: Vec<String> = Vec::new();
            values.push(text);
            let ghost old_entries = entries@;
            entries.push(HeaderEntry { name: h.name.clone(), values });
            proof {
                assert(entry_values(entries@[k as int]) =~= seq![recorded_value(h.value@)]);
                lemma_group_new(old_entries, prev, headers@[i as int], entries@[k as int]);
                lemma_value_count_push(old_entries, entries@[k as int]);
                assert(next =~= prev.push(headers@[i as int]));
            }
        }
        i = i + 1;
    }
    assert(headers@.take(headers.len() as int) =~= headers@);
    entries
}

/// Status of a captured callback.
pub const STATUS_OK: u16 = 200;

/// Status of a request that addresses no payload.
pub const STATUS_NOT_FOUND: u16 = 404;

/// Status of a request for an expired or unknown payload.
pub const STATUS_GONE: u16 = 410;

/// Status when the store fails.
pub const STATUS_INTERNAL_ERROR: u16 = 500;

/// The reply to a callback request: status code and plain-text body.
#[derive(Debug)]
pub struct CallbackResponse {
    pub status: u16,
    pub body: String,
}

/// The payload that a callback request addresses through its `Host`
/// header under the root domain, or the 404 reply
/// `unknown collaborator payload` when it addresses none.
pub fn callback_target(host_header: Option<&[u8]>, root_domain: &str) -> (r: Result<String, CallbackResponse>)
    ensures
        ({
            let host = callback_host_spec(
                match host_header {
                    Some(b) => Some(b@),
                    None => None,
                },
            );
            match r {
                Ok(id) => payload_id_of(host, root_domain@) == Some(id@),
                Err(reply) => {
                    &&& payload_id_of(host, root_domain@) is None
                    &&& reply.status == STATUS_NOT_FOUND
                    &&& reply.body@ == "unknown collaborator payload"@
                },
            }
        }),
{
    let host = callback_host(host_header);
    match extract_payload_id(host.as_str(), root_domain) {
        Some(id) => Ok(id),
        None => Err(
            CallbackResponse {
                status: STATUS_NOT_FOUND,
                body: "unknown collaborator payload".to_owned(),
            },
        ),
    }
}

/// The reply owed once the store has been asked whether the addressed
/// payload is active: none when it is (the request goes on to be
/// recorded), 410 `expired or unknown payload` when it is not, and 500 with
/// an empty body when the store failed.
pub fn activity_reply(active: Result<bool, ()>) -> (r: Option<CallbackResponse>)
    ensures
        match active {
            Ok(true) => r is None,
            Ok(false) => r matches Some(reply) && reply.status == STATUS_GONE
                && reply.body@ == "expired or unknown payload"@,
            Err(_) => r matches Some(reply) && reply.status == STATUS_INTERNAL_ERROR
                && reply.body@.len() == 0,
        },
{
    match active {
        Ok(true) => None,
        Ok(false) => Some(
            CallbackResponse { status: STATUS_GONE, body: "expired or unknown payload".to_owned() },
        ),
        Err(_) => Some(CallbackResponse { status: STATUS_INTERNAL_ERROR, body: String::new() }),
    }
}

/// The interaction that an HTTP callback records: type `http_request`, the
/// listener's protocol, the source address, method, request target,
/// grouped headers, the body decoded as lossy UTF-8, and TLS metadata
/// `enabled` exactly when the protocol is `https`.
pub fn http_interaction(
    payload_id: String,
    source_ip: String,
    protocol: &str,
    method: String,
    path: String,
    headers: &Vec<RawHeader>,
    body: &[u8],
) -> (i: NewInteraction)
    ensures
        i.payload_id@ == payload_id@,
        i.interaction_type@ == "http_request"@,
        i.source_ip matches Some(ip) && ip@ == source_ip@,
        i.protocol@ == protocol@,
        i.method matches Some(m) && m@ == method@,
        i.path matches Some(p) && p@ == path@,
        i.query_type is None,
        groups_headers(i.headers@, headers@),
        i.body matches Some(b) && b@ == utf8_lossy(body@),
        i.tls_enabled == Some(protocol@ == "https"@),
{
    let https = same_text(protocol, "https");
    NewInteraction {
        payload_id,
        interaction_type: "http_request".to_owned(),
        source_ip: Some(source_ip),
        protocol: protocol.to_owned(),
        method: Some(method),
        path: Some(path),
        query_type: None,
        headers: group_headers(headers),
        body: Some(lossy_text(body)),
        tls_enabled: Some(https),
    }
}

/// The lower-case hexadecimal digit of a value below sixteen.
pub open spec fn hex_digit(d: nat) -> char {
    if d < 10 {
        ((48 + d) as u32) as char
    } else {
        ((87 + d) as u32) as char
    }
}

/// The last `n` hexadecimal digits of `v`, most significant first.
pub open spec fn hex_digits(v: nat, n: nat) -> Seq<char>
    decreases n,
{
    if n == 0 {
        Seq::empty()
    } else {
        hex_digits(v / 16, (n - 1) as nat).push(hex_digit(v % 16))
    }
}

/// The hyphenated lower-case text of a UUID given as its 128-bit value: its
/// 32 hexadecimal digits, most significant first, with a hyphen after the
/// 8th, 12th, 16th and 20th.
pub open spec fn uuid_hyphenated(id: u128) -> Seq<char> {
    let h = hex_digits(id as nat, 32);
    h.subrange(0, 8) + seq!['-'] + h.subrange(8, 12) + seq!['-'] + h.subrange(12, 16) + seq!['-']
        + h.subrange(16, 20) + seq!['-'] + h.subrange(20, 32)
}

/// Formats a UUID (`uuid::Uuid::from_u128(id).to_string()`). Claimed: the
/// result is `uuid_hyphenated` of the value.
#[verifier::external_body]
pub(crate) fn uuid_text(id: u128) -> (s: String)
    ensures
        s@ == uuid_hyphenated(id),
{
    uuid::Uuid::from_u128(id).to_string()
}

/// The reply once the store has been asked to record the interaction: 200
/// `captured <id>` and a newline with the new record's identifier, or 500
/// with an empty body when the store failed.
pub fn stored_reply(stored: Result<u128, ()>) -> (reply: CallbackResponse)
    ensures
        match stored {
            Ok(id) => reply.status == STATUS_OK && reply.body@ == "captured "@ + uuid_hyphenated(id) + "\n"@,
            Err(_) => reply.status == STATUS_INTERNAL_ERROR && reply.body@.len() == 0,
        },
{
    match stored {
        Ok(id) => {
            let mut body = chars_of("captured ");
            append_chars(&mut body, &chars_of(uuid_text(id).as_str()));
            append_chars(&mut body, &chars_of("\n"));
            CallbackResponse { status: STATUS_OK, body: string_of(&body) }
        },
        Err(_) => CallbackResponse { status: STATUS_INTERNAL_ERROR, body: String::new() },
    }
}

/// Characters that a host name may hold in a `Host` header: visible ASCII
/// other than `':'`.
pub open spec fn plain_host_chars(s: Seq<char>) -> bool {
    forall|i: int| 0 <= i < s.len() ==> ' ' < #[trigger] s[i] && s[i] <= '~' && s[i] != ':'
}

/// The bytes of an ASCII text.
pub open spec fn ascii_bytes(s: Seq<char>) -> Seq<u8> {
    s.map_values(|c: char| c as u8)
}

proof fn lemma_colon_from_none(s: Seq<char>, i: int)
    requires
        0 <= i <= s.len(),
        forall|j: int| i <= j < s.len() ==> s[j] != ':',
    ensures
        colon_from(s, i) == s.len(),
    decreases s.len() - i,
{
    if i < s.len() {
        lemma_colon_from_none(s, i + 1);
    }
}

proof fn lemma_colon_from_at(s: Seq<char>, i: int, c: int)
    requires
        0 <= i <= c < s.len(),
        s[c] == ':',
        forall|j: int| i <= j < c ==> s[j] != ':',
    ensures
        colon_from(s, i) == c,
    decreases c - i,
{
    if i < c {
        lemma_colon_from_at(s, i + 1, c);
    }
}

/// A callback request whose `Host` header names a generated payload's
/// hostname, with or without a port, is attributed to that payload (for a
/// root domain of plain host characters that is not empty once its
/// trailing dots are removed).
pub proof fn law_host_header_addresses_payload(payload_id: Seq<char>, root_domain: Seq<char>, port: Seq<char>)
    requires
        is_generated_payload_id(payload_id),
        trim_trailing_dots(root_domain).len() > 0,
        plain_host_chars(root_domain),
        plain_host_chars(port),
    ensures
        payload_id_of(
            callback_host_spec(Some(ascii_bytes(fqdn_spec(payload_id, root_domain)))),
            root_domain,
        ) == Some(payload_id),
        payload_id_of(
            callback_host_spec(
                Some(ascii_bytes(fqdn_spec(payload_id, root_domain) + seq![':'] + port)),
            ),
            root_domain,
        ) == Some(payload_id),
{
    let host = fqdn_spec(payload_id, root_domain);
    crate::text::lemma_trim_trailing_dots(root_domain);
    assert forall|i: int| 0 <= i < host.len() implies ' ' < #[trigger] host[i] && host[i] <= '~' && host[i] != ':' by {
        if i < payload_id.len() {
            assert(host[i] == payload_id[i]);
            assert(crate::payloads::is_payload_id_char(payload_id[i]));
        } else if i > payload_id.len() {
            assert(host[i] == trim_trailing_dots(root_domain)[i - payload_id.len() - 1]);
            assert(trim_trailing_dots(root_domain)[i - payload_id.len() - 1] == root_domain[i - payload_id.len() - 1]);
        }
    }
    let with_port = host + seq![':'] + port;
    assert forall|i: int| 0 <= i < with_port.len() implies ' ' < #[trigger] with_port[i] && with_port[i] <= '~' by {
        if i < host.len() {
            assert(with_port[i] == host[i]);
        } else if i > host.len() {
            assert(with_port[i] == port[i - host.len() - 1]);
        }
    }
    let b1 = ascii_bytes(host);
    let b2 = ascii_bytes(with_port);
    assert forall|i: int| 0 <= i < b1.len() implies is_visible_ascii(#[trigger] b1[i]) by {
        assert(' ' < host[i] && host[i] <= '~');
    }
    assert forall|i: int| 0 <= i < b2.len() implies is_visible_ascii(#[trigger] b2[i]) by {
        assert(' ' < with_port[i] && with_port[i] <= '~');
    }
    assert(b1.map_values(|b: u8| b as char) =~= host) by {
        assert forall|i: int| 0 <= i < host.len() implies (b1[i] as char) == host[i] by {
            assert(' ' < host[i] && host[i] <= '~');
        }
    }
    assert(b2.map_values(|b: u8| b as char) =~= with_port) by {
        assert forall|i: int| 0 <= i < with_port.len() implies (b2[i] as char) == with_port[i] by {
            assert(' ' < with_port[i] && with_port[i] <= '~');
        }
    }
    lemma_colon_from_none(host, 0);
    assert(before_colon(host) =~= host);
    assert(with_port[host.len() as int] == ':');
    assert forall|j: int| 0 <= j < host.len() implies with_port[j] != ':' by {
        assert(with_port[j] == host[j]);
    }
    lemma_colon_from_at(with_port, 0, host.len() as int);
    assert(before_colon(with_port) =~= host);
    law_generated_id_round_trips(payload_id, root_domain);
}

} // verus!
