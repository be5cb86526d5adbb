//! DNS callbacks: parsing the question of a query, answering it, TCP
//! framing, and what a query asks to be recorded.

use vstd::prelude::*;
use crate::text::{join_dots, decimal, chars_of, string_of, u64_decimal, utf8_lossy, lossy_text};
use crate::payloads::{payload_id_of, extract_payload_id};
use crate::models::NewInteraction;

verus! {

/// The largest DNS message read from one UDP datagram.
pub const MAX_UDP_PACKET: usize = 512;

/// The largest DNS message accepted over TCP.
pub const MAX_TCP_QUERY: usize = 4096;

/// The length of the fixed DNS header.
pub const DNS_HEADER_LEN: usize = 12;

/// Response code for a query that could not be read.
pub const RCODE_FORMAT_ERROR: u8 = 1;

/// Response code of every answer to a readable query: the name does not exist.
pub const RCODE_NAME_ERROR: u8 = 3;

/// Why the question of a DNS query could not be read.
#[derive(Debug, Clone, Copy, PartialEq, Eq, Structural)]
pub enum DnsError {
    /// Fewer bytes than the fixed header.
    TooShort,
    /// The header announces no question.
    NoQuestions,
    /// The question name runs past the end of the packet.
    NameExceedsPacket,
    /// A label length byte has one of its two top bits set (a compression pointer).
    CompressedName,
    /// A label runs past the end of the packet.
    LabelExceedsPacket,
    /// Fewer than four bytes follow the question name.
    QuestionTruncated,
}

impl DnsError {
    /// The text that describes the error.
    pub open spec fn describe(self) -> Seq<char> {
        match self {
            DnsError::TooShort => "DNS packet too short"@,
            DnsError::NoQuestions => "DNS packet has no questions"@,
            DnsError::NameExceedsPacket => "DNS name exceeds packet"@,
            DnsError::CompressedName => "compressed names are not accepted in questions"@,
            DnsError::LabelExceedsPacket => "DNS label exceeds packet"@,
            DnsError::QuestionTruncated => "DNS question is truncated"@,
        }
    }

    /// The text that describes the error.
    pub fn message(&self) -> (m: &'static str)
        ensures
            m@ == self.describe(),
    {
        match self {
            DnsError::TooShort => "DNS packet too short",
            DnsError::NoQuestions => "DNS packet has no questions",
            DnsError::NameExceedsPacket => "DNS name exceeds packet",
            DnsError::CompressedName => "compressed names are not accepted in questions",
            DnsError::LabelExceedsPacket => "DNS label exceeds packet",
            DnsError::QuestionTruncated => "DNS question is truncated",
        }
    }
}

/// The first question of a DNS query: its name, labels joined with dots,
/// and its query type.
#[derive(Debug)]
pub struct DnsQuery {
    pub name: String,
    pub query_type: u16,
}

/// The big-endian 16-bit number of two bytes.
pub open spec fn be_u16(hi: u8, lo: u8) -> u16 {
    (hi as int * 256 + lo as int) as u16
}

/// The raw labels of the name that starts at `offset`, and the offset just
/// past its terminating zero byte.
pub open spec fn question_labels(p: Seq<u8>, offset: int) -> Result<(Seq<Seq<u8>>, int), DnsError>
    decreases p.len() - offset,
{
    if offset < 0 || offset >= p.len() {
        Err(DnsError::NameExceedsPacket)
    } else {
        let l: int = p[offset] as int;
        if l == 0 {
            Ok((Seq::empty(), offset + 1))
        } else if l >= 64 {
            Err(DnsError::CompressedName)
        } else if offset + 1 + l > p.len() {
            Err(DnsError::LabelExceedsPacket)
        } else {
            match question_labels(p, offset + 1 + l) {
                Ok((rest, end)) => Ok((seq![p.subrange(offset + 1, offset + 1 + l)] + rest, end)),
                Err(e) => Err(e),
            }
        }
    }
}

/// The question of a DNS query: after the 12-byte header, which must
/// announce at least one question, the name (uncompressed labels, each
/// decoded as lossy UTF-8, joined with dots) and the two-byte big-endian
/// query type, which must be followed by the two-byte class.
pub open spec fn parse_query_spec(p: Seq<u8>) -> Result<(Seq<char>, u16), DnsError> {
    if p.len() < 12 {
        Err(DnsError::TooShort)
    } else if be_u16(p[4], p[5]) == 0 {
        Err(DnsError::NoQuestions)
    } else {
        match question_labels(p, 12) {
            Err(e) => Err(e),
            Ok((labels, end)) => if end + 4 > p.len() {
                Err(DnsError::QuestionTruncated)
            } else {
                Ok((join_dots(labels.map_values(|l: Seq<u8>| utf8_lossy(l))), be_u16(p[end], p[end + 1])))
            },
        }
    }
}

spec fn after_labels(done: Seq<Seq<u8>>, r: Result<(Seq<Seq<u8>>, int), DnsError>) -> Result<(Seq<Seq<u8>>, int), DnsError> {
    match r {
        Ok((rest, end)) => Ok((done + rest, end)),
        Err(e) => Err(e),
    }
}

/// Reads the first question of a DNS query.
pub fn parse_query(packet: &[u8]) -> (r: Result<DnsQuery, DnsError>)
    ensures
        match r {
            Ok(q) => parse_query_spec(packet@) == Ok::<(Seq<char>, u16), DnsError>((q.name@, q.query_type)),
            Err(e) => parse_query_spec(packet@) == Err::<(Seq<char>, u16), DnsError>(e),
        },
{
    if packet.len() < 12 {
        return Err(DnsError::TooShort);
    }
    let qdcount: u16 = (packet[4] as u16) * 256 + (packet[5] as u16);
    if qdcount == 0 {
        return Err(DnsError::NoQuestions);
    }
    let mut offset: usize = 12;
    let mut name: Vec<char> = Vec::new();
    let ghost mut done: Seq<Seq<u8>> = Seq::empty();
    let mut first = true;
    assert(after_labels(done, question_labels(packet@, 12)) =~= question_labels(packet@, 12));
    loop
        invariant_except_break
            12 <= offset <= packet@.len(),
            be_u16(packet@[4], packet@[5]) != 0,
            first == (done.len() == 0),
            name@ == join_dots(done.map_values(|l: Seq<u8>| utf8_lossy(l))),
            after_labels(done, question_labels(packet@, offset as int)) == question_labels(packet@, 12),
        ensures
            offset <= packet@.len(),
            name@ == join_dots(done.map_values(|l: Seq<u8>| utf8_lossy(l))),
            question_labels(packet@, 12) == Ok::<(Seq<Seq<u8>>, int), DnsError>((done, offset as int)),
        decreases packet@.len() - offset,
    {
        if offset >= packet.len() {
            return Err(DnsError::NameExceedsPacket);
        }
        let b: u8 = packet[offset];
        let len: usize = b as usize;
        offset = offset + 1;
        if len == 0 {
            assert(done + Seq::<Seq<u8>>::empty() =~= done);
            break;
        }
        assert((b & 0xC0u8 != 0) == (b >= 64)) by (bit_vector);
        if b & 0xC0u8 != 0 {
            return Err(DnsError::CompressedName);
        }
        if len > packet.len() - offset {
            return Err(DnsError::LabelExceedsPacket);
        }
        let label = lossy_text(&packet[offset..offset + len]);
        let ghost raw = packet@.subrange(offset as int, offset + len);
        proof {
            let f = |l: Seq<u8>| utf8_lossy(l);
            assert(done.push(raw).map_values(f) =~= done.map_values(f).push(f(raw)));
            assert(done.push(raw).drop_last() =~= done);
            match question_labels(packet@, offset + len) {
                Ok((rest, end)) => {
                    assert(done + (seq![raw] + rest) =~= done.push(raw) + rest);
                },
                Err(e) => {},
            }
        }
        if !first {
            name.push('.');
        }
        first = false;
        let label_chars = chars_of(label.as_str());
        let ghost before = name@;
        crate::text::append_chars(&mut name, &label_chars);
        proof {
            let f = |l: Seq<u8>| utf8_lossy(l);
            let parts = done.push(raw).map_values(f);
            assert(parts.drop_last() =~= done.map_values(f));
            assert(parts.last() == utf8_lossy(raw));
            if done.len() == 0 {
                assert(before =~= Seq::<char>::empty());
                assert(name@ =~= join_dots(parts));
            } else {
                assert(name@ =~= join_dots(parts));
            }
            done = done.push(raw);
        }
        offset = offset + len;
    }
    if 4 > packet.len() - offset {
        return Err(DnsError::QuestionTruncated);
    }
    let query_type: u16 = (packet[offset] as u16) * 256 + (packet[offset + 1] as u16);
    Ok(DnsQuery { name: string_of(&name), query_type })
}

/// The answer to a query of at least twelve bytes: the query itself with
/// the flags set to a recursion-desired response (byte 2 `0x81`), recursion
/// available and the low four bits of `rcode` (byte 3), and the answer,
/// authority and additional counts (bytes 6 to 11) set to zero.
pub open spec fn answer_bytes(q: Seq<u8>, rcode: u8) -> Seq<u8> {
    q.update(2, 0x81u8).update(3, 0x80u8 | (rcode & 0x0fu8)).update(6, 0u8).update(7, 0u8).update(
        8,
        0u8,
    ).update(9, 0u8).update(10, 0u8).update(11, 0u8)
}

/// The answer to a query, if it is long enough to hold a header.
pub open spec fn answer_spec(q: Seq<u8>, rcode: u8) -> Option<Seq<u8>> {
    if q.len() < 12 {
        None
    } else {
        Some(answer_bytes(q, rcode))
    }
}

/// The bytes an optional message holds.
pub open spec fn message_view(m: Option<Vec<u8>>) -> Option<Seq<u8>> {
    match m {
        Some(v) => Some(v@),
        None => None,
    }
}

/// The answer to a query with the given response code, or `None` for a
/// query shorter than a DNS header.
pub fn build_response(query: &[u8], rcode: u8) -> (r: Option<Vec<u8>>)
    ensures
        message_view(r) == answer_spec(query@, rcode),
        r is Some <==> query@.len() >= 12,
        r matches Some(v) ==> {
            &&& v@.len() == query@.len()
            &&& v@[0] == query@[0] && v@[1] == query@[1]
            &&& v@[2] == 0x81u8
            &&& v@[3] == 128 + rcode % 16
            &&& v@[4] == query@[4] && v@[5] == query@[5]
            &&& forall|i: int| 6 <= i < 12 ==> v@[i] == 0u8
            &&& v@.skip(12) == query@.skip(12)
        },
{
    if query.len() < 12 {
        return None;
    }
    let mut response = vstd::slice::slice_to_vec(query);
    response.set(2, 0x81u8);
    response.set(3, 0x80u8 | (rcode & 0x0fu8));
    response.set(6, 0);
    response.set(7, 0);
    response.set(8, 0);
    response.set(9, 0);
    response.set(10, 0);
    response.set(11, 0);
    assert(response@ =~= answer_bytes(query@, rcode));
    proof {
        law_answer_shape(query@, rcode);
    }
    Some(response)
}

/// The two big-endian bytes of a 16-bit number.
pub open spec fn be_bytes(n: u16) -> Seq<u8> {
    seq![(n / 256) as u8, (n % 256) as u8]
}

/// The length announced by the two-byte prefix of a DNS message over TCP,
/// when it is no more than `MAX_TCP_QUERY`.
pub open spec fn tcp_query_len_spec(hi: u8, lo: u8) -> Option<usize> {
    if be_u16(hi, lo) > MAX_TCP_QUERY {
        None
    } else {
        Some(be_u16(hi, lo) as usize)
    }
}

/// The length of the query that follows a TCP length prefix, or `None`
/// when it is longer than `MAX_TCP_QUERY` and the connection is dropped.
pub fn tcp_query_len(prefix: [u8; 2]) -> (r: Option<usize>)
    ensures
        r == tcp_query_len_spec(prefix@[0], prefix@[1]),
{
    let len: u16 = (prefix[0] as u16) * 256 + (prefix[1] as u16);
    if len as usize > MAX_TCP_QUERY {
        None
    } else {
        Some(len as usize)
    }
}

/// An answer framed for TCP: its length, reduced to sixteen bits, as two
/// big-endian bytes, then the answer.
pub open spec fn tcp_frame_spec(response: Seq<u8>) -> Seq<u8> {
    be_bytes((response.len() % 65536) as u16) + response
}

/// Frames an answer for TCP.
pub fn frame_tcp_response(response: &[u8]) -> (framed: Vec<u8>)
    ensures
        framed@ == tcp_frame_spec(response@),
{
    let len: u16 = (response.len() % 65536) as u16;
    let mut framed: Vec<u8> = Vec::new();
    framed.push((len / 256) as u8);
    framed.push((len % 256) as u8);
    let mut i: usize = 0;
    while i < response.len()
        invariant
            i <= response.len(),
            framed@ == be_bytes(len) + response@.take(i as int),
        decreases response.len() - i,
    {
        framed.push(response[i]);
        i = i + 1;
        assert(framed@ =~= be_bytes(len) + response@.take(i as int));
    }
    assert(response@.take(response.len() as int) =~= response@);
    framed
}

/// A query whose name addresses a payload.
#[derive(Debug)]
pub struct DnsCallback {
    pub payload_id: String,
    pub name: String,
    pub query_type: u16,
}

/// What to do with one DNS message: the answer to send, if any, the
/// payload callback to record when that payload is active, and why the
/// question could not be read, if it could not.
#[derive(Debug)]
pub struct DnsPlan {
    pub response: Option<Vec<u8>>,
    pub callback: Option<DnsCallback>,
    pub query_error: Option<DnsError>,
}

/// Decides what to do with one DNS message under the root domain. A message
/// whose question cannot be read is answered with `RCODE_FORMAT_ERROR`;
/// every other one with `RCODE_NAME_ERROR`; a message too short for a header
/// is not answered. A readable question whose name addresses a payload
/// yields a callback with the payload identifier, the name and the type.
pub fn plan_dns_packet(packet: &[u8], root_domain: &str) -> (plan: DnsPlan)
    ensures
        match parse_query_spec(packet@) {
            Err(e) => {
                &&& message_view(plan.response) == answer_spec(packet@, RCODE_FORMAT_ERROR)
                &&& plan.callback is None
                &&& plan.query_error == Some(e)
            },
            Ok((name, query_type)) => {
                &&& message_view(plan.response) == answer_spec(packet@, RCODE_NAME_ERROR)
                &&& plan.query_error is None
                &&& match payload_id_of(name, root_domain@) {
                    None => plan.callback is None,
                    Some(id) => {
                        &&& plan.callback is Some
                        &&& plan.callback->0.payload_id@ == id
                        &&& plan.callback->0.name@ == name
                        &&& plan.callback->0.query_type == query_type
                    },
                }
            },
        },
{
    match parse_query(packet) {
        Err(e) => DnsPlan {
            response: build_response(packet, RCODE_FORMAT_ERROR),
            callback: None,
            query_error: Some(e),
        },
        Ok(query) => {
            let callback = match extract_payload_id(query.name.as_str(), root_domain) {
                Some(payload_id) => Some(
                    DnsCallback { payload_id, name: query.name, query_type: query.query_type },
                ),
                None => None,
            };
            DnsPlan { response: build_response(packet, RCODE_NAME_ERROR), callback, query_error: None }
        },
    }
}

/// The interaction that a DNS callback records when its payload is active
/// (`None` otherwise): type `dns_query`, protocol `dns`, the source address,
/// the queried name as path, the decimal query type, no headers, body or
/// TLS metadata.
pub fn dns_interaction(callback: DnsCallback, source_ip: String, active: bool) -> (r: Option<NewInteraction>)
    ensures
        active == r is Some,
        r matches Some(i) ==> {
            &&& i.payload_id@ == callback.payload_id@
            &&& i.interaction_type@ == "dns_query"@
            &&& i.source_ip matches Some(ip) && ip@ == source_ip@
            &&& i.protocol@ == "dns"@
            &&& i.method is None
            &&& i.path matches Some(p) && p@ == callback.name@
            &&& i.query_type matches Some(t) && t@ == decimal(callback.query_type as nat)
            &&& i.headers@.len() == 0
            &&& i.body is None
            &&& i.tls_enabled is None
        },
{
    if !active {
        return None;
    }
    Some(NewInteraction {
        payload_id: callback.payload_id,
        interaction_type: "dns_query".to_owned(),
        source_ip: Some(source_ip),
        protocol: "dns".to_owned(),
        method: None,
        path: Some(callback.name),
        query_type: Some(u64_decimal(callback.query_type as u64)),
        headers: Vec::new(),
        body: None,
        tls_enabled: None,
    })
}

/// The wire form of a sequence of labels: each label preceded by its length.
pub open spec fn encode_labels(labels: Seq<Seq<u8>>) -> Seq<u8>
    decreases labels.len(),
{
    if labels.len() == 0 {
        Seq::empty()
    } else {
        seq![labels[0].len() as u8] + labels[0] + encode_labels(labels.drop_first())
    }
}

/// Labels that an uncompressed name may hold: each of 1 to 63 bytes.
pub open spec fn plain_labels(labels: Seq<Seq<u8>>) -> bool {
    forall|i: int| 0 <= i < labels.len() ==> 0 < #[trigger] labels[i].len() < 64
}

proof fn lemma_labels_read_back(pre: Seq<u8>, labels: Seq<Seq<u8>>, tail: Seq<u8>)
    requires
        plain_labels(labels),
    ensures
        question_labels(pre + encode_labels(labels) + seq![0u8] + tail, pre.len() as int) == Ok::<
            (Seq<Seq<u8>>, int),
            DnsError,
        >((labels, (pre.len() + encode_labels(labels).len() + 1) as int)),
    decreases labels.len(),
{
    let p = pre + encode_labels(labels) + seq![0u8] + tail;
    if labels.len() == 0 {
        assert(p[pre.len() as int] == 0u8);
        assert(encode_labels(labels).len() == 0);
        assert(labels =~= Seq::<Seq<u8>>::empty());
    } else {
        let l0 = labels[0];
        let rest = labels.drop_first();
        assert(0 < labels[0].len() < 64);
        let pre2 = pre + seq![l0.len() as u8] + l0;
        assert forall|i: int| 0 <= i < rest.len() implies 0 < #[trigger] rest[i].len() < 64 by {
            assert(rest[i] == labels[i + 1]);
        }
        lemma_labels_read_back(pre2, rest, tail);
        assert(pre2 + encode_labels(rest) + seq![0u8] + tail =~= p);
        assert(p[pre.len() as int] == l0.len() as u8);
        assert(p.subrange(pre.len() + 1int, (pre.len() + 1 + l0.len()) as int) =~= l0);
        assert(seq![l0] + rest =~= labels);
    }
}

/// The offset just past the terminating zero byte of the question name,
/// when the name can be read.
pub open spec fn question_end(p: Seq<u8>) -> int {
    match question_labels(p, 12) {
        Ok((_, end)) => end,
        Err(_) => 0,
    }
}

proof fn lemma_labels_end(p: Seq<u8>, offset: int)
    ensures
        question_labels(p, offset) matches Ok((_, end)) ==> offset < end <= p.len(),
    decreases p.len() - offset,
{
    if 0 <= offset < p.len() && p[offset] != 0 && p[offset] < 64 && offset + 1 + p[offset] <= p.len() {
        lemma_labels_end(p, offset + 1 + p[offset]);
    }
}

proof fn lemma_labels_read_only_name(p: Seq<u8>, p2: Seq<u8>, offset: int)
    requires
        question_labels(p, offset) is Ok,
        question_labels(p, offset)->Ok_0.1 <= p2.len(),
        forall|i: int| offset <= i < question_labels(p, offset)->Ok_0.1 ==> p2[i] == p[i],
    ensures
        question_labels(p2, offset) == question_labels(p, offset),
    decreases p.len() - offset,
{
    lemma_labels_end(p, offset);
    let end = question_labels(p, offset)->Ok_0.1;
    assert(p2[offset] == p[offset]);
    let l = p[offset] as int;
    if l != 0 {
        let next = offset + 1 + l;
        lemma_labels_end(p, next);
        assert(p2.subrange(offset + 1, next) =~= p.subrange(offset + 1, next));
        lemma_labels_read_only_name(p, p2, next);
    }
}

/// A question is read from the question count and the question itself
/// alone: changing the identifier, flags, other counts, the class or
/// anything after the question, or adding bytes after it, leaves a readable
/// question reading the same.
pub proof fn law_question_ignores_other_bytes(p: Seq<u8>, p2: Seq<u8>)
    requires
        parse_query_spec(p) is Ok,
        p2.len() >= question_end(p) + 4,
        p2[4] == p[4],
        p2[5] == p[5],
        forall|i: int| 12 <= i < question_end(p) + 2 ==> p2[i] == p[i],
    ensures
        parse_query_spec(p2) == parse_query_spec(p),
{
    lemma_labels_end(p, 12);
    lemma_labels_read_only_name(p, p2, 12);
}

/// Reading a question gives back what was written: a header that announces
/// a question, followed by plain labels, the terminating zero byte, a query
/// type and a class, reads back as the labels joined with dots and that
/// query type.
pub proof fn law_question_read_back(header: Seq<u8>, labels: Seq<Seq<u8>>, query_type: u16, class: u16)
    requires
        header.len() == 12,
        be_u16(header[4], header[5]) != 0,
        plain_labels(labels),
    ensures
        parse_query_spec(header + encode_labels(labels) + seq![0u8] + be_bytes(query_type) + be_bytes(class))
            == Ok::<(Seq<char>, u16), DnsError>((join_dots(labels.map_values(|l: Seq<u8>| utf8_lossy(l))), query_type)),
{
    let tail = be_bytes(query_type) + be_bytes(class);
    let p = header + encode_labels(labels) + seq![0u8] + tail;
    assert(header + encode_labels(labels) + seq![0u8] + be_bytes(query_type) + be_bytes(class) =~= p);
    lemma_labels_read_back(header, labels, tail);
    let end: int = (header.len() + encode_labels(labels).len() + 1) as int;
    assert(p[4] == header[4] && p[5] == header[5]);
    assert(p[end] == (query_type / 256) as u8);
    assert(p[end + 1] == (query_type % 256) as u8);
}

/// The answer to a query keeps its length, identifier, question count and
/// everything from the question on; whatever the query's flags, byte 2 is
/// `0x81` (a response, recursion desired, not truncated, not authoritative),
/// byte 3 is recursion available with the low four bits of the response
/// code, and the answer, authority and additional counts are zero.
pub proof fn law_answer_shape(q: Seq<u8>, rcode: u8)
    requires
        q.len() >= 12,
    ensures
        answer_bytes(q, rcode).len() == q.len(),
        answer_bytes(q, rcode)[0] == q[0],
        answer_bytes(q, rcode)[1] == q[1],
        answer_bytes(q, rcode)[4] == q[4],
        answer_bytes(q, rcode)[5] == q[5],
        answer_bytes(q, rcode).skip(12) == q.skip(12),
        answer_bytes(q, rcode)[2] == 0x81u8,
        answer_bytes(q, rcode)[3] == 128 + rcode % 16,
        forall|i: int| 6 <= i < 12 ==> answer_bytes(q, rcode)[i] == 0u8,
{
    let b: u8 = 0x80u8 | (rcode & 0x0fu8);
    assert(b == 128 + rcode % 16) by (bit_vector)
        requires
            b == 0x80u8 | (rcode & 0x0fu8),
    ;
    assert(answer_bytes(q, rcode).skip(12) =~= q.skip(12));
}

/// A framed answer announces its own length: the two-byte prefix reads
/// back as the answer's length when that is at most `MAX_TCP_QUERY`, and
/// the answer follows unchanged.
pub proof fn law_tcp_frame_read_back(response: Seq<u8>)
    requires
        response.len() <= MAX_TCP_QUERY,
    ensures
        tcp_query_len_spec(tcp_frame_spec(response)[0], tcp_frame_spec(response)[1]) == Some(
            response.len() as usize,
        ),
        tcp_frame_spec(response).skip(2) == response,
{
    assert(tcp_frame_spec(response).skip(2) =~= response);
}

} // verus!
