//! Lifecycle and script-gate behavior of the webview registry.

use infinitty_core::registry::Registry;

const TRUST_DENIAL: &str = "Webview is not trusted for script execution";

#[test]
fn create_returns_the_id_and_stores_a_trusted_record() {
    let mut reg = Registry::new();
    let id = reg.create_surface("p1", "https://example.com").unwrap();
    assert_eq!(id, "p1");
    let rec = reg.get_record("p1").unwrap();
    assert!(rec.trusted);
    assert_eq!(rec.url.scheme, "https");
    assert_eq!(rec.url.host, "example.com");
    assert_eq!(rec.url.serialization, "https://example.com/");
}

#[test]
fn create_rejects_policy_violations_without_a_record() {
    let mut reg = Registry::new();
    assert_eq!(
        reg.create_surface("p1", "http://192.168.0.7").unwrap_err(),
        "Blocked private IP: 192.168.0.7"
    );
    assert!(reg.create_surface("p1", "no scheme here").is_err());
    assert!(!reg.contains_surface("p1"));
}

#[test]
fn create_twice_replaces_the_record() {
    let mut reg = Registry::new();
    reg.create_surface("p1", "https://first.example").unwrap();
    // No error on replacement, and only the new url remains.
    reg.create_surface("p1", "https://second.example").unwrap();
    let rec = reg.get_record("p1").unwrap();
    assert_eq!(rec.url.serialization, "https://second.example/");
    assert!(rec.trusted);
    assert_eq!(reg.surface_ids(), vec!["p1".to_string()]);
}

#[test]
fn destroy_is_idempotent() {
    let mut reg = Registry::new();
    reg.create_surface("p1", "https://example.com").unwrap();
    reg.destroy_surface("p1");
    reg.destroy_surface("p1");
    assert!(!reg.contains_surface("p1"));
    // Destroying an id that never existed also succeeds.
    reg.destroy_surface("never-created");
}

#[test]
fn navigate_updates_the_stored_url_and_keeps_trust() {
    let mut reg = Registry::new();
    reg.create_surface("p1", "https://example.com").unwrap();
    assert_eq!(reg.navigate_surface("p1", "http://other.example/page"), Ok(()));
    let rec = reg.get_record("p1").unwrap();
    assert_eq!(rec.url.serialization, "http://other.example/page");
    assert!(rec.trusted);
}

#[test]
fn navigate_rejection_leaves_the_stored_url_unchanged() {
    let mut reg = Registry::new();
    reg.create_surface("p1", "https://example.com").unwrap();
    assert_eq!(
        reg.navigate_surface("p1", "http://10.0.0.5").unwrap_err(),
        "Blocked private IP: 10.0.0.5"
    );
    assert!(reg.navigate_surface("p1", "::not::a::url::").is_err());
    assert_eq!(reg.get_record("p1").unwrap().url.serialization, "https://example.com/");
}

#[test]
fn navigate_unknown_id_reports_not_found() {
    let mut reg = Registry::new();
    assert_eq!(reg.navigate_surface("ghost", "https://example.com").unwrap_err(), "Webview not found");
}

#[test]
fn script_on_an_id_never_created_gets_the_trust_denial() {
    let reg = Registry::new();
    // The same message as for an untrusted surface: the caller cannot
    // learn whether the id exists.
    assert_eq!(reg.authorize_script("ghost", "document.title").unwrap_err(), TRUST_DENIAL);
}

#[test]
fn script_on_a_created_surface_is_allowed() {
    let mut reg = Registry::new();
    reg.create_surface("p1", "https://example.com").unwrap();
    assert_eq!(reg.authorize_script("p1", "document.title"), Ok(()));
}

#[test]
fn oversized_script_is_rejected_before_any_lookup() {
    let mut reg = Registry::new();
    reg.create_surface("p1", "https://example.com").unwrap();
    let big = "a".repeat(100_001);
    assert_eq!(reg.authorize_script("p1", &big).unwrap_err(), "Script too large");
    // The same answer for an id that does not exist: size comes first.
    assert_eq!(reg.authorize_script("ghost", &big).unwrap_err(), "Script too large");
    // At the ceiling itself the script passes the size check.
    let at_limit = "a".repeat(100_000);
    assert_eq!(reg.authorize_script("p1", &at_limit), Ok(()));
}

#[test]
fn surface_ids_lists_every_live_surface_once() {
    let mut reg = Registry::new();
    reg.create_surface("p1", "https://a.example").unwrap();
    reg.create_surface("p2", "https://b.example").unwrap();
    reg.create_surface("p3", "https://c.example").unwrap();
    reg.destroy_surface("p2");
    let mut ids = reg.surface_ids();
    ids.sort();
    assert_eq!(ids, vec!["p1".to_string(), "p3".to_string()]);
}

#[test]
fn full_surface_lifecycle_scenario() {
    let mut reg = Registry::new();
    let id = reg.create_surface("p1", "https://example.com").unwrap();
    assert_eq!(id, "p1");
    assert!(reg.get_record("p1").unwrap().trusted);

    assert_eq!(
        reg.navigate_surface("p1", "http://10.0.0.5").unwrap_err(),
        "Blocked private IP: 10.0.0.5"
    );
    assert_eq!(reg.get_record("p1").unwrap().url.serialization, "https://example.com/");

    assert_eq!(reg.authorize_script("p1", "document.title"), Ok(()));

    reg.destroy_surface("p1");
    assert_eq!(reg.authorize_script("p1", "x").unwrap_err(), TRUST_DENIAL);
}
