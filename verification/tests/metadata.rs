use armature_cloudrun::metadata::{
    client_error, field_status, field_url, region_from_zone_given, unreachable_error,
    unreadable_error, zone_suffix, METADATA_BASE, ZONE_PATH,
};
use armature_cloudrun::{region_from_zone, CloudRunError, FieldStatus, InstanceMetadata, ServiceMetadata};

#[test]
fn region_from_zone_handles_normal_and_degenerate_inputs() {
    // Full metadata-server zone path -> region with the "-a" suffix stripped.
    assert_eq!(
        region_from_zone("projects/123456789/zones/us-central1-a").as_deref(),
        Some("us-central1")
    );
    // Bare zone without the leading metadata path.
    assert_eq!(
        region_from_zone("us-central1-a").as_deref(),
        Some("us-central1")
    );
    // No single-letter "-a" zone suffix: already a region, returned whole.
    assert_eq!(
        region_from_zone("us-central1").as_deref(),
        Some("us-central1")
    );
    // No '-' at all -> returned whole, not an empty string.
    assert_eq!(
        region_from_zone("uscentral1").as_deref(),
        Some("uscentral1")
    );
    // Empty value -> None.
    assert_eq!(region_from_zone(""), None);
}

#[test]
fn region_from_zone_edge_cases() {
    // Trailing slash: empty last segment.
    assert_eq!(region_from_zone("projects/1/zones/"), None);
    // Leading dash: the region before it would be empty, so the value stays whole.
    assert_eq!(region_from_zone("-a").as_deref(), Some("-a"));
    // Multi-letter suffix is not a zone suffix.
    assert_eq!(region_from_zone("europe-west1-bc").as_deref(), Some("europe-west1-bc"));
    // A single-letter suffix may be any letter.
    assert_eq!(region_from_zone("asia-é").as_deref(), Some("asia"));
    assert_eq!(region_from_zone("us-east1-B").as_deref(), Some("us-east1"));
    // A single character that is not a letter is not a zone suffix.
    assert_eq!(region_from_zone("us-1").as_deref(), Some("us-1"));
    assert_eq!(region_from_zone("us-_").as_deref(), Some("us-_"));
    // Trailing dash: empty suffix.
    assert_eq!(region_from_zone("us-").as_deref(), Some("us-"));
    // Only the last path segment counts.
    assert_eq!(region_from_zone("a-b/c-d-e").as_deref(), Some("c-d"));
}

#[test]
fn field_status_classifies_http_statuses() {
    assert_eq!(field_status(200), FieldStatus::Present);
    assert_eq!(field_status(299), FieldStatus::Present);
    assert_eq!(field_status(404), FieldStatus::Absent);
    assert_eq!(field_status(403), FieldStatus::Absent);
    // A degraded server's answer also leaves the field absent, not an error.
    assert_eq!(field_status(500), FieldStatus::Absent);
    assert_eq!(field_status(503), FieldStatus::Absent);
    assert_eq!(field_status(429), FieldStatus::Absent);
    assert_eq!(field_status(301), FieldStatus::Absent);
    assert_eq!(field_status(199), FieldStatus::Absent);
}

#[test]
fn zone_suffix_and_region_given_its_class() {
    assert_eq!(zone_suffix("projects/1/zones/us-central1-a"), Some('a'));
    assert_eq!(zone_suffix("us-1"), Some('1'));
    assert_eq!(zone_suffix("us-central1"), None);
    assert_eq!(zone_suffix("-a"), None);
    assert_eq!(zone_suffix(""), None);
    assert_eq!(region_from_zone_given("us-1", false).as_deref(), Some("us-1"));
    assert_eq!(region_from_zone_given("us-1", true).as_deref(), Some("us"));
    assert_eq!(region_from_zone_given("us-central1-a", true).as_deref(), Some("us-central1"));
    assert_eq!(region_from_zone_given("us-central1", true).as_deref(), Some("us-central1"));
    assert_eq!(region_from_zone_given("zones/", true), None);
}

#[test]
fn metadata_error_messages() {
    match unreachable_error("instance/id", "connection refused") {
        CloudRunError::Metadata(m) => {
            assert_eq!(m, "metadata server unreachable (instance/id): connection refused")
        }
        other => panic!("unexpected {other:?}"),
    }
    match unreadable_error("instance/id", "eof") {
        CloudRunError::Metadata(m) => {
            assert_eq!(m, "failed to read metadata response (instance/id): eof")
        }
        other => panic!("unexpected {other:?}"),
    }
    match client_error("tls") {
        CloudRunError::Metadata(m) => assert_eq!(m, "failed to build HTTP client: tls"),
        other => panic!("unexpected {other:?}"),
    }
}

#[test]
fn field_url_appends_path_to_base() {
    assert_eq!(
        field_url(METADATA_BASE, ZONE_PATH),
        "http://metadata.google.internal/computeMetadata/v1/instance/zone"
    );
    assert_eq!(
        field_url("http://127.0.0.1:1/computeMetadata/v1/", "instance/id"),
        "http://127.0.0.1:1/computeMetadata/v1/instance/id"
    );
}

#[test]
fn absent_fields_stay_none_and_region_comes_from_zone() {
    let md = InstanceMetadata::from_fields(
        None,
        Some("projects/123456789/zones/us-central1-a".to_string()),
        None,
        None,
        None,
    );
    assert_eq!(md.zone.as_deref(), Some("projects/123456789/zones/us-central1-a"));
    assert_eq!(md.region.as_deref(), Some("us-central1"));
    assert!(md.instance_id.is_none());
    assert!(md.project_id.is_none());
    assert!(md.project_number.is_none());
    assert!(md.service_account.is_none());

    let none = InstanceMetadata::from_fields(None, None, None, None, None);
    assert!(none.region.is_none());
}

#[test]
fn service_metadata_requires_service_name() {
    assert!(ServiceMetadata::from_values(None, Some("r".to_string()), None, None, None, None).is_none());
    let m = ServiceMetadata::from_values(
        Some("svc".to_string()),
        Some("svc-00001".to_string()),
        None,
        Some("proj".to_string()),
        None,
        Some("https://svc-abc123-uc.a.run.app".to_string()),
    )
    .unwrap();
    assert_eq!(m.name, "svc");
    assert_eq!(m.revision.as_deref(), Some("svc-00001"));
    assert_eq!(m.configuration, None);
    assert_eq!(m.project_id.as_deref(), Some("proj"));
    assert_eq!(m.url.as_deref(), Some("https://svc-abc123-uc.a.run.app"));
}
