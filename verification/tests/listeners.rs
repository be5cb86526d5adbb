use apprecon_collaborator::listeners::{
    activity_reply, callback_host, callback_target, group_headers, header_text, http_interaction,
    record_header_value, stored_reply, RawHeader,
};

fn raw(name: &str, value: &[u8]) -> RawHeader {
    RawHeader { name: name.to_string(), value: value.to_vec() }
}

#[test]
fn header_text_accepts_visible_ascii_and_tab() {
    assert_eq!(header_text(b"a b\tc~"), Some("a b\tc~".to_string()));
    assert_eq!(header_text(b""), Some(String::new()));
    assert_eq!(header_text(&[b'a', 0x7f]), None);
    assert_eq!(header_text(&[0xc3, 0xa9]), None);
    assert_eq!(header_text(b"a\nb"), None);
}

#[test]
fn host_is_text_before_colon() {
    assert_eq!(callback_host(Some(b"abc.root:8081")), "abc.root");
    assert_eq!(callback_host(Some(b"abc.root")), "abc.root");
    assert_eq!(callback_host(Some(b":80")), "");
    assert_eq!(callback_host(None), "");
    assert_eq!(callback_host(Some(&[0xff])), "");
}

#[test]
fn header_values_base64_when_not_text() {
    assert_eq!(record_header_value(b"plain"), "plain");
    assert_eq!(record_header_value(&[0xff, 0x00]), "/wA=");
    assert_eq!(record_header_value(&[0x80]), "gA==");
}

#[test]
fn headers_group_by_name_in_order() {
    let headers = vec![
        raw("accept", b"a"),
        raw("cookie", b"x=1"),
        raw("accept", b"b"),
        raw("x-bin", &[0xfe]),
    ];
    let entries = group_headers(&headers);
    assert_eq!(entries.len(), 3);
    assert_eq!(entries[0].name, "accept");
    assert_eq!(entries[0].values, vec!["a".to_string(), "b".to_string()]);
    assert_eq!(entries[1].name, "cookie");
    assert_eq!(entries[1].values, vec!["x=1".to_string()]);
    assert_eq!(entries[2].name, "x-bin");
    assert_eq!(entries[2].values, vec!["/g==".to_string()]);
    assert!(group_headers(&vec![]).is_empty());
}

#[test]
fn target_of_unknown_host_is_404() {
    let r = callback_target(Some(b"example.com"), "collab.company.com").unwrap_err();
    assert_eq!(r.status, 404);
    assert_eq!(r.body, "unknown collaborator payload");
    assert_eq!(callback_target(None, "root").unwrap_err().status, 404);
}

#[test]
fn law_host_header_addresses_payload_example() {
    assert_eq!(
        callback_target(Some(b"abc123.collab.company.com:8081"), "collab.company.com").unwrap(),
        "abc123"
    );
    assert_eq!(
        callback_target(Some(b"abc123.collab.company.com"), "collab.company.com").unwrap(),
        "abc123"
    );
}

#[test]
fn activity_replies() {
    assert!(activity_reply(Ok(true)).is_none());
    let r = activity_reply(Ok(false)).unwrap();
    assert_eq!((r.status, r.body.as_str()), (410, "expired or unknown payload"));
    let r = activity_reply(Err(())).unwrap();
    assert_eq!((r.status, r.body.as_str()), (500, ""));
}

#[test]
fn stored_replies() {
    let r = stored_reply(Ok(0x67e55044_10b1_426f_9247_bb680e5fe0c8));
    assert_eq!(r.status, 200);
    assert_eq!(r.body, "captured 67e55044-10b1-426f-9247-bb680e5fe0c8\n");
    let r = stored_reply(Err(()));
    assert_eq!((r.status, r.body.as_str()), (500, ""));
}

#[test]
fn http_interaction_fields() {
    let headers = vec![raw("host", b"abc.root"), raw("x", b"1"), raw("x", b"2")];
    let i = http_interaction(
        "abc".into(),
        "192.0.2.1".into(),
        "https",
        "POST".into(),
        "/a?b=c".into(),
        &headers,
        &[b'h', b'i', 0xff],
    );
    assert_eq!(i.payload_id, "abc");
    assert_eq!(i.interaction_type, "http_request");
    assert_eq!(i.source_ip.as_deref(), Some("192.0.2.1"));
    assert_eq!(i.protocol, "https");
    assert_eq!(i.method.as_deref(), Some("POST"));
    assert_eq!(i.path.as_deref(), Some("/a?b=c"));
    assert_eq!(i.query_type, None);
    assert_eq!(i.headers.len(), 2);
    assert_eq!(i.headers[1].values, vec!["1".to_string(), "2".to_string()]);
    assert_eq!(i.body.as_deref(), Some("hi\u{fffd}"));
    assert_eq!(i.tls_enabled, Some(true));
    let j = http_interaction("abc".into(), "::1".into(), "http", "GET".into(), "/".into(), &vec![], b"");
    assert_eq!(j.tls_enabled, Some(false));
    assert_eq!(j.body.as_deref(), Some(""));
}

#[test]
fn grouped_values_count_every_header() {
    let headers = vec![
        raw("a", b"1"),
        raw("b", b"2"),
        raw("a", b"3"),
        raw("a", &[0x00]),
        raw("c", b""),
    ];
    let entries = group_headers(&headers);
    let total: usize = entries.iter().map(|e| e.values.len()).sum();
    assert_eq!(total, headers.len());
    assert_eq!(entries[0].values, vec!["1".to_string(), "3".to_string(), "AA==".to_string()]);
}
