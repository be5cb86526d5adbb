use apprecon_collaborator::dns::{
    build_response, dns_interaction, frame_tcp_response, parse_query, plan_dns_packet, tcp_query_len,
    DnsCallback, DnsError, RCODE_FORMAT_ERROR, RCODE_NAME_ERROR,
};

fn query(labels: &[&[u8]], qtype: u16) -> Vec<u8> {
    let mut p = vec![0x12, 0x34, 0x01, 0x00, 0x00, 0x01, 0x00, 0x00, 0x00, 0x00, 0x00, 0x00];
    for l in labels {
        p.push(l.len() as u8);
        p.extend_from_slice(l);
    }
    p.push(0);
    p.extend_from_slice(&qtype.to_be_bytes());
    p.extend_from_slice(&1u16.to_be_bytes());
    p
}

#[test]
fn parse_reads_name_and_type() {
    let q = parse_query(&query(&[b"abc123", b"collab", b"company", b"com"], 1)).unwrap();
    assert_eq!(q.name, "abc123.collab.company.com");
    assert_eq!(q.query_type, 1);
    let q = parse_query(&query(&[b"x"], 28)).unwrap();
    assert_eq!(q.name, "x");
    assert_eq!(q.query_type, 28);
}

#[test]
fn parse_root_name_is_empty() {
    let q = parse_query(&query(&[], 16)).unwrap();
    assert_eq!(q.name, "");
    assert_eq!(q.query_type, 16);
}

#[test]
fn parse_replaces_invalid_utf8() {
    let q = parse_query(&query(&[&[0xff, b'a'], b"b"], 1)).unwrap();
    assert_eq!(q.name, "\u{fffd}a.b");
}

#[test]
fn parse_errors() {
    assert_eq!(parse_query(&[0u8; 11]).unwrap_err(), DnsError::TooShort);
    let mut p = query(&[b"a"], 1);
    p[5] = 0;
    assert_eq!(parse_query(&p).unwrap_err(), DnsError::NoQuestions);
    assert_eq!(parse_query(&p[..12].iter().copied().chain([0u8; 0]).collect::<Vec<_>>()).unwrap_err(), DnsError::NoQuestions);
    let p = query(&[b"a"], 1);
    assert_eq!(parse_query(&p[..12]).unwrap_err(), DnsError::NameExceedsPacket);
    let mut c = p[..12].to_vec();
    c.extend_from_slice(&[0xc0, 0x0c, 0, 1, 0, 1]);
    assert_eq!(parse_query(&c).unwrap_err(), DnsError::CompressedName);
    let mut l = p[..12].to_vec();
    l.extend_from_slice(&[5, b'a', b'b']);
    assert_eq!(parse_query(&l).unwrap_err(), DnsError::LabelExceedsPacket);
    assert_eq!(parse_query(&p[..p.len() - 1]).unwrap_err(), DnsError::QuestionTruncated);
}

#[test]
fn error_messages() {
    assert_eq!(DnsError::TooShort.message(), "DNS packet too short");
    assert_eq!(DnsError::CompressedName.message(), "compressed names are not accepted in questions");
    assert_eq!(DnsError::QuestionTruncated.message(), "DNS question is truncated");
}

#[test]
fn response_sets_flags_and_clears_counts() {
    let mut p = query(&[b"a"], 1);
    p[7] = 3;
    p[11] = 9;
    let r = build_response(&p, 3).unwrap();
    assert_eq!(r.len(), p.len());
    assert_eq!(&r[..12], &[0x12, 0x34, 0x81, 0x83, 0x00, 0x01, 0, 0, 0, 0, 0, 0]);
    assert_eq!(&r[12..], &p[12..]);
    let r = build_response(&p, 0x21).unwrap();
    assert_eq!(r[3], 0x81);
}

#[test]
fn response_needs_a_header() {
    assert_eq!(build_response(&[0u8; 11], 1), None);
    assert_eq!(build_response(&[], 3), None);
}

#[test]
fn law_answer_shape_example() {
    let p = query(&[b"abc", b"root"], 255);
    for rcode in [0u8, 1, 3, 15, 200] {
        let r = build_response(&p, rcode).unwrap();
        assert_eq!(r[3] & 0x0f, rcode & 0x0f);
        assert!(r[2] >= 0x80 && r[3] >= 0x80);
        assert_eq!(r[0..2], p[0..2]);
        assert_eq!(r[4..6], p[4..6]);
    }
}

#[test]
fn law_question_read_back_example() {
    let labels: [&[u8]; 3] = [b"one", b"two-2", &[b'x'; 63]];
    let q = parse_query(&query(&labels, 0xabcd)).unwrap();
    assert_eq!(q.name, format!("one.two-2.{}", "x".repeat(63)));
    assert_eq!(q.query_type, 0xabcd);
}

#[test]
fn tcp_length_prefix() {
    assert_eq!(tcp_query_len([0, 0]), Some(0));
    assert_eq!(tcp_query_len([0x10, 0x00]), Some(4096));
    assert_eq!(tcp_query_len([0x10, 0x01]), None);
    assert_eq!(tcp_query_len([0xff, 0xff]), None);
}

#[test]
fn tcp_framing() {
    assert_eq!(frame_tcp_response(&[7, 8, 9]), vec![0, 3, 7, 8, 9]);
    let big = vec![1u8; 300];
    let f = frame_tcp_response(&big);
    assert_eq!(&f[..2], &[1, 44]);
    assert_eq!(&f[2..], &big[..]);
}

#[test]
fn law_tcp_frame_read_back_example() {
    let body = vec![5u8; 4096];
    let f = frame_tcp_response(&body);
    assert_eq!(tcp_query_len([f[0], f[1]]), Some(4096));
    assert_eq!(&f[2..], &body[..]);
}

#[test]
fn plan_for_payload_query() {
    let p = query(&[b"AbC123", b"collab", b"company", b"com"], 1);
    let plan = plan_dns_packet(&p, "collab.company.com");
    assert_eq!(plan.response, build_response(&p, RCODE_NAME_ERROR));
    let cb = plan.callback.unwrap();
    assert_eq!(cb.payload_id, "abc123");
    assert_eq!(cb.name, "AbC123.collab.company.com");
    assert_eq!(cb.query_type, 1);
    assert_eq!(plan.query_error, None);
}

#[test]
fn plan_for_other_name_and_invalid_packet() {
    let p = query(&[b"example", b"com"], 1);
    let plan = plan_dns_packet(&p, "collab.company.com");
    assert_eq!(plan.response, build_response(&p, RCODE_NAME_ERROR));
    assert!(plan.callback.is_none());
    let mut bad = p[..12].to_vec();
    bad.extend_from_slice(&[0xc0, 0x0c]);
    let plan = plan_dns_packet(&bad, "collab.company.com");
    assert_eq!(plan.response, build_response(&bad, RCODE_FORMAT_ERROR));
    assert_eq!(plan.response.as_ref().unwrap()[3], 0x81);
    assert!(plan.callback.is_none());
    assert_eq!(plan.query_error, Some(DnsError::CompressedName));
    let plan = plan_dns_packet(&[1, 2, 3], "collab.company.com");
    assert!(plan.response.is_none() && plan.callback.is_none());
    assert_eq!(plan.query_error, Some(DnsError::TooShort));
}

#[test]
fn dns_interaction_recorded_only_when_active() {
    let cb = || DnsCallback { payload_id: "abc".into(), name: "abc.root".into(), query_type: 28 };
    assert!(dns_interaction(cb(), "10.0.0.1".into(), false).is_none());
    let i = dns_interaction(cb(), "10.0.0.1".into(), true).unwrap();
    assert_eq!(i.payload_id, "abc");
    assert_eq!(i.interaction_type, "dns_query");
    assert_eq!(i.source_ip.as_deref(), Some("10.0.0.1"));
    assert_eq!(i.protocol, "dns");
    assert_eq!(i.method, None);
    assert_eq!(i.path.as_deref(), Some("abc.root"));
    assert_eq!(i.query_type.as_deref(), Some("28"));
    assert!(i.headers.is_empty());
    assert_eq!(i.body, None);
    assert_eq!(i.tls_enabled, None);
}

#[test]
fn law_question_ignores_other_bytes_example() {
    let p = query(&[b"abc", b"root"], 28);
    let mut p2 = p.clone();
    p2[0] = 0xaa;
    p2[2] = 0x00;
    p2[7] = 4;
    p2[11] = 9;
    let n = p2.len();
    p2[n - 1] = 0xff;
    p2[n - 2] = 0xff;
    p2.extend_from_slice(&[1, 2, 3]);
    let a = parse_query(&p).unwrap();
    let b = parse_query(&p2).unwrap();
    assert_eq!((a.name, a.query_type), (b.name, b.query_type));
}
