use apprecon_collaborator::api::{
    authorize, create_payload_response, health_response, interaction_detail, metrics_body, ApiError,
};
use apprecon_collaborator::models::{Payload, StatsResponse, Timestamp};

#[test]
fn authorize_accepts_exact_bearer_key() {
    assert!(authorize("change_me", Some(b"Bearer change_me")).is_ok());
}

#[test]
fn authorize_rejects_everything_else() {
    for header in [
        Some(&b"Bearer wrong"[..]),
        Some(&b"bearer change_me"[..]),
        Some(&b"Bearer change_me "[..]),
        Some(&b"change_me"[..]),
        Some(&[0xff][..]),
        None,
    ] {
        let e = authorize("change_me", header).unwrap_err();
        assert_eq!(e.status, 401);
        assert_eq!(e.message, "unauthorized");
    }
}

#[test]
fn api_error_constructors() {
    let e = ApiError::not_found("interaction not found");
    assert_eq!((e.status, e.message.as_str()), (404, "interaction not found"));
    let e = ApiError::internal("db down".to_string());
    assert_eq!((e.status, e.message.as_str()), (500, "db down"));
}

#[test]
fn metrics_text_exact() {
    let stats = StatsResponse {
        payload_count: 3,
        interaction_count: 12,
        requests_per_minute: 0,
        dns_queries_per_minute: -5,
    };
    assert_eq!(
        metrics_body(&stats),
        "# TYPE hexbuffer_payload_count gauge\nhexbuffer_payload_count 3\n\
         # TYPE hexbuffer_interaction_count gauge\nhexbuffer_interaction_count 12\n\
         # TYPE hexbuffer_requests_per_minute gauge\nhexbuffer_requests_per_minute 0\n\
         # TYPE hexbuffer_dns_queries_per_minute gauge\nhexbuffer_dns_queries_per_minute -5\n"
    );
}

#[test]
fn metrics_extreme_values() {
    let stats = StatsResponse {
        payload_count: i64::MAX,
        interaction_count: i64::MIN,
        requests_per_minute: 10,
        dns_queries_per_minute: 1234567890,
    };
    let body = metrics_body(&stats);
    assert!(body.contains("hexbuffer_payload_count 9223372036854775807\n"));
    assert!(body.contains("hexbuffer_interaction_count -9223372036854775808\n"));
    assert!(body.contains("hexbuffer_requests_per_minute 10\n"));
    assert!(body.contains("hexbuffer_dns_queries_per_minute 1234567890\n"));
}

#[test]
fn health_answer() {
    let stats = StatsResponse {
        payload_count: 2,
        interaction_count: 7,
        requests_per_minute: 1,
        dns_queries_per_minute: 1,
    };
    let h = health_response(&stats);
    assert_eq!(h.status, "ok");
    assert_eq!(h.payload_count, 2);
    assert_eq!(h.interaction_count, 7);
}

#[test]
fn creation_answer_and_detail() {
    let p = Payload {
        id: 42,
        payload_id: "abc".into(),
        payload: "abc.root".into(),
        name: Some("n".into()),
        description: None,
        tags: "{}".into(),
        created_at: Timestamp { secs: 1, nanos: 2 },
        expires_at: Some(Timestamp { secs: 3, nanos: 0 }),
    };
    let r = create_payload_response(p);
    assert_eq!(r.id, 42);
    assert_eq!(r.payload_id, "abc");
    assert_eq!(r.payload, "abc.root");
    assert_eq!(r.expires_at, Some(Timestamp { secs: 3, nanos: 0 }));
    let e = interaction_detail(None).unwrap_err();
    assert_eq!((e.status, e.message.as_str()), (404, "interaction not found"));
}
