use grid::client::{endpoint_uri, ClientIdentity};

#[test]
fn the_endpoint_is_the_address_behind_the_scheme() {
    assert_eq!(endpoint_uri("127.0.0.1:50000"), "http://127.0.0.1:50000");
    assert_eq!(endpoint_uri(""), "http://");
}

#[test]
fn host_and_user_register_in_lower_case() {
    let identity = ClientIdentity::new(
        "Monitor".to_string(),
        Some("Work-Station.Example".to_string()),
        Some("ALICE".to_string()),
    );
    assert_eq!(identity.client_description, "Monitor");
    assert_eq!(identity.host_id, "work-station.example");
    assert_eq!(identity.user_id, "alice");
}

#[test]
fn unknown_host_and_user_register_with_empty_names() {
    let identity = ClientIdentity::new("worker 1 2 lib".to_string(), None, None);
    assert_eq!(identity.client_description, "worker 1 2 lib");
    assert_eq!(identity.host_id, "");
    assert_eq!(identity.user_id, "");
}

#[test]
fn lower_case_reaches_beyond_ascii() {
    let identity = ClientIdentity::new(String::new(), Some("ÄÖÜ".to_string()), None);
    assert_eq!(identity.host_id, "äöü");
}
