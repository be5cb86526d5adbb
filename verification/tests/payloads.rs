use apprecon_collaborator::payloads::{
    extract_payload_id, fqdn, generate_payload_id, payload_id_from_sample, PAYLOAD_ID_LEN,
};

#[test]
fn fqdn_joins_id_and_root() {
    assert_eq!(fqdn("abc123", "collab.company.com"), "abc123.collab.company.com");
}

#[test]
fn fqdn_trims_trailing_dots_of_root() {
    assert_eq!(fqdn("abc123", "collab.company.com.."), "abc123.collab.company.com");
    assert_eq!(fqdn("abc", ""), "abc.");
}

#[test]
fn extract_reads_first_label_before_root() {
    assert_eq!(
        extract_payload_id("abc123.collab.company.com", "collab.company.com"),
        Some("abc123".to_string())
    );
    assert_eq!(
        extract_payload_id("www.abc123.collab.company.com", "collab.company.com"),
        Some("www".to_string())
    );
}

#[test]
fn extract_is_case_insensitive_and_ignores_trailing_dots() {
    assert_eq!(
        extract_payload_id("ABC123.Collab.Company.COM.", "collab.company.com."),
        Some("abc123".to_string())
    );
}

#[test]
fn extract_rejects_other_domains_and_bare_root() {
    assert_eq!(extract_payload_id("abc123.example.com", "collab.company.com"), None);
    assert_eq!(extract_payload_id("collab.company.com", "collab.company.com"), None);
    assert_eq!(extract_payload_id(".collab.company.com", "collab.company.com"), None);
    assert_eq!(extract_payload_id("xcollab.company.com", "collab.company.com"), None);
    assert_eq!(extract_payload_id("", "collab.company.com"), None);
}

#[test]
fn extract_with_empty_label_before_subdomain() {
    assert_eq!(extract_payload_id("..x.root", "root"), None);
}

#[test]
fn generated_ids_are_lowercase_alphanumeric() {
    for _ in 0..50 {
        let id = generate_payload_id().unwrap();
        assert_eq!(id.chars().count(), PAYLOAD_ID_LEN);
        assert!(id.chars().all(|c| c.is_ascii_lowercase() || c.is_ascii_digit()));
    }
}

#[test]
fn generated_ids_differ() {
    let a = generate_payload_id().unwrap();
    let b = generate_payload_id().unwrap();
    assert_ne!(a, b);
}

#[test]
fn law_generated_id_round_trips_example() {
    let id = generate_payload_id().unwrap();
    let host = fqdn(&id, "collab.company.com.");
    assert_eq!(extract_payload_id(&host, "collab.company.com."), Some(id));
}

#[test]
fn law_fqdn_addresses_its_payload_example() {
    let host = fqdn("AbC9", "Example.Org");
    assert_eq!(extract_payload_id(&host, "Example.Org"), Some("abc9".to_string()));
}

#[test]
fn law_trailing_dot_ignored_example() {
    assert_eq!(
        extract_payload_id("id1.root.", "root"),
        extract_payload_id("id1.root", "root")
    );
}

#[test]
fn payload_id_from_sample_lowercases_each_byte() {
    assert_eq!(payload_id_from_sample(&b"AbCdEf012XyZ".to_vec()), "abcdef012xyz");
    assert_eq!(payload_id_from_sample(&b"000000000000".to_vec()), "000000000000");
    assert_eq!(payload_id_from_sample(&b"ZZZZZZZZZZZZ".to_vec()), "zzzzzzzzzzzz");
}
