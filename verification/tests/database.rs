use apprecon_collaborator::config::DatabaseConfig;
use apprecon_collaborator::database::{
    assemble_payload, instant_of_reading, interaction_from_row, minute_before, now, payload_active,
    payload_active_at, payload_from_row, prepare_payload, random_uuid, sqlite_url, ConnectError,
    InteractionRow, PayloadRow, StoreError,
};
use apprecon_collaborator::models::{CreatePayloadRequest, Timestamp};

fn payload_row() -> PayloadRow {
    PayloadRow {
        id: "67e55044-10b1-426f-9247-bb680e5fe0c8".into(),
        payload_id: "abc123".into(),
        name: Some("demo".into()),
        description: None,
        tags: "[\"local\"]".into(),
        created_at: "2024-01-02T03:04:05.5+01:00".into(),
        expires_at: Some("2030-01-01T00:00:00Z".into()),
    }
}

fn interaction_row() -> InteractionRow {
    InteractionRow {
        id: "00000000-0000-0000-0000-000000000001".into(),
        payload_id: "abc123".into(),
        interaction_type: "dns_query".into(),
        source_ip: Some("10.0.0.1".into()),
        protocol: "dns".into(),
        method: None,
        path: Some("abc123.root".into()),
        query_type: Some("1".into()),
        headers: "{}".into(),
        body: None,
        tls_metadata: "{\"enabled\":false}".into(),
        created_at: "1970-01-01T00:00:10Z".into(),
    }
}

#[test]
fn payload_row_reads_back() {
    let p = payload_from_row(payload_row(), "collab.company.com.").unwrap();
    assert_eq!(p.id, 0x67e55044_10b1_426f_9247_bb680e5fe0c8);
    assert_eq!(p.payload_id, "abc123");
    assert_eq!(p.payload, "abc123.collab.company.com");
    assert_eq!(p.name.as_deref(), Some("demo"));
    assert_eq!(p.tags, "[\"local\"]");
    assert_eq!(p.created_at, Timestamp { secs: 1704161045, nanos: 500_000_000 });
    assert_eq!(p.expires_at, Some(Timestamp { secs: 1893456000, nanos: 0 }));
}

#[test]
fn payload_row_errors_in_column_order() {
    let mut r = payload_row();
    r.id = "not-a-uuid".into();
    r.tags = "{".into();
    assert_eq!(payload_from_row(r, "root").unwrap_err(), StoreError::InvalidUuid);
    let mut r = payload_row();
    r.tags = "{".into();
    r.created_at = "yesterday".into();
    let e = payload_from_row(r, "root").unwrap_err();
    assert!(matches!(e, StoreError::InvalidJson(_)));
    assert_eq!(e.message(), serde_json::from_str::<serde_json::Value>("{").unwrap_err().to_string());
    let mut r = payload_row();
    r.created_at = "yesterday".into();
    let e = payload_from_row(r, "root").unwrap_err();
    assert!(matches!(e, StoreError::InvalidTime(_)));
    assert_eq!(e.message(), chrono::DateTime::parse_from_rfc3339("yesterday").unwrap_err().to_string());
    let mut r = payload_row();
    r.expires_at = Some("2030-13-01T00:00:00Z".into());
    assert!(matches!(payload_from_row(r, "root").unwrap_err(), StoreError::InvalidTime(_)));
    let mut r = payload_row();
    r.expires_at = None;
    assert_eq!(payload_from_row(r, "root").unwrap().expires_at, None);
}

#[test]
fn interaction_row_reads_back() {
    let i = interaction_from_row(interaction_row()).unwrap();
    assert_eq!(i.id, 1);
    assert_eq!(i.interaction_type, "dns_query");
    assert_eq!(i.tls_metadata, "{\"enabled\":false}");
    assert_eq!(i.created_at, Timestamp { secs: 10, nanos: 0 });
    let mut r = interaction_row();
    r.tls_metadata = "nope".into();
    assert!(matches!(interaction_from_row(r).unwrap_err(), StoreError::InvalidJson(_)));
    let mut r = interaction_row();
    r.id = "".into();
    let e = interaction_from_row(r).unwrap_err();
    assert_eq!(e, StoreError::InvalidUuid);
    assert_eq!(e.message(), "invalid UUID in database");
    let mut r = interaction_row();
    r.created_at = "1970-01-01".into();
    assert!(matches!(interaction_from_row(r).unwrap_err(), StoreError::InvalidTime(_)));
}

#[test]
fn activity_at_a_given_time() {
    let now = Timestamp { secs: 1893456000, nanos: 0 };
    assert_eq!(payload_active_at(None, now), Ok(true));
    assert_eq!(payload_active_at(Some("2030-01-01T00:00:00Z"), now), Ok(false));
    assert_eq!(payload_active_at(Some("2030-01-01T00:00:00.000000001Z"), now), Ok(true));
    assert_eq!(payload_active_at(Some("2029-12-31T23:59:59Z"), now), Ok(false));
    assert!(matches!(payload_active_at(Some("soon"), now), Err(StoreError::InvalidTime(_))));
}

#[test]
fn activity_now() {
    assert_eq!(payload_active(None), Ok(true));
    assert_eq!(payload_active(Some("2000-01-01T00:00:00Z")), Ok(false));
    assert_eq!(payload_active(Some("9999-01-01T00:00:00Z")), Ok(true));
    assert!(matches!(payload_active(Some("x")), Err(StoreError::InvalidTime(_))));
}

#[test]
fn assembled_payload_normalises_null_tags() {
    let req = CreatePayloadRequest {
        name: Some("demo".into()),
        description: Some("d".into()),
        tags: "null".into(),
        expires_at: None,
    };
    let p = assemble_payload("collab.company.com", req, 7, "abc".into(), Timestamp { secs: 5, nanos: 6 });
    assert_eq!(p.id, 7);
    assert_eq!(p.payload, "abc.collab.company.com");
    assert_eq!(p.tags, "{}");
    assert_eq!(p.created_at, Timestamp { secs: 5, nanos: 6 });
    let req = CreatePayloadRequest { name: None, description: None, tags: "[\"x\"]".into(), expires_at: None };
    let p = assemble_payload("r", req, 1, "id".into(), Timestamp { secs: 0, nanos: 0 });
    assert_eq!(p.tags, "[\"x\"]");
}

#[test]
fn prepared_payload_is_fresh() {
    let req = || CreatePayloadRequest { name: None, description: None, tags: "null".into(), expires_at: None };
    let a = prepare_payload("collab.company.com", req()).unwrap();
    let b = prepare_payload("collab.company.com", req()).unwrap();
    assert_eq!((a.id >> 76) & 0xf, 4);
    assert_eq!((a.id >> 62) & 0x3, 2);
    assert_ne!(a.id, b.id);
    assert_ne!(a.payload_id, b.payload_id);
    assert_eq!(a.payload, format!("{}.collab.company.com", a.payload_id));
    assert_eq!(a.tags, "{}");
    assert!(a.created_at.secs > 1_600_000_000);
}

#[test]
fn sqlite_url_for_sqlite_only() {
    let c = DatabaseConfig { driver: "sqlite".into(), path: "/data/0xbuffer.db".into() };
    assert_eq!(sqlite_url(&c).unwrap(), "sqlite:///data/0xbuffer.db?mode=rwc");
    let c = DatabaseConfig { driver: "postgres".into(), path: "x".into() };
    assert_eq!(sqlite_url(&c).unwrap_err(), ConnectError::UnsupportedDriver("postgres".into()));
}

#[test]
fn random_uuids_are_version_4() {
    let a = random_uuid().unwrap();
    let b = random_uuid().unwrap();
    assert_ne!(a, b);
    for v in [a, b] {
        assert_eq!((v >> 76) & 0xf, 4);
        assert_eq!((v >> 62) & 0x3, 2);
    }
}

#[test]
fn clock_readings_become_instants() {
    assert_eq!(instant_of_reading(Ok((10, 5))), Some(Timestamp { secs: 10, nanos: 5 }));
    assert_eq!(instant_of_reading(Err((10, 0))), Some(Timestamp { secs: -10, nanos: 0 }));
    assert_eq!(
        instant_of_reading(Err((10, 250_000_000))),
        Some(Timestamp { secs: -11, nanos: 750_000_000 })
    );
    assert_eq!(instant_of_reading(Ok((u64::MAX, 0))), None);
    assert_eq!(
        instant_of_reading(Err((1u64 << 63, 0))),
        Some(Timestamp { secs: i64::MIN, nanos: 0 })
    );
    assert_eq!(instant_of_reading(Err((1u64 << 63, 1))), None);
    let t = now().unwrap();
    assert!(t.secs > 1_600_000_000 && t.nanos < 1_000_000_000);
}

#[test]
fn minute_before_subtracts_sixty_seconds() {
    assert_eq!(
        minute_before(Timestamp { secs: 100, nanos: 7 }),
        Timestamp { secs: 40, nanos: 7 }
    );
}

#[test]
fn clock_error_message() {
    assert_eq!(StoreError::ClockOutOfRange.message(), "system clock out of range");
}
