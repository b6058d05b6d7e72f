use hootie::alerts::{Alert, Severity};
use hootie::json::decode_alerts;

fn alert(severity: Severity, event: &str, resource: &str) -> Alert {
    Alert {
        severity,
        event: event.to_string(),
        resource: resource.to_string(),
    }
}

#[test]
fn decode_single_page_alert() {
    let body = r#"{"alerts":[{"severity":"page","event":"A","resource":"A"}]}"#;
    let alerts = decode_alerts(body).unwrap();
    assert_eq!(alerts, vec![alert(Severity::Page, "A", "A")]);
}

#[test]
fn decode_two_alerts_in_body_order() {
    let body = r#"{"alerts":[
        {"severity":"warn","event":"svc-down","resource":"db1"},
        {"severity":"page","event":"disk-full","resource":"db1"}
    ]}"#;
    let alerts = decode_alerts(body).unwrap();
    assert_eq!(
        alerts,
        vec![
            alert(Severity::Warn, "svc-down", "db1"),
            alert(Severity::Page, "disk-full", "db1"),
        ]
    );
}

#[test]
fn decode_empty_alerts_array() {
    assert_eq!(decode_alerts(r#"{"alerts":[]}"#).unwrap(), vec![]);
    assert_eq!(decode_alerts(" { \"alerts\" : [ ] } ").unwrap(), vec![]);
}

#[test]
fn decode_missing_alerts_key_fails() {
    assert!(decode_alerts("{}").is_err());
    assert!(decode_alerts(r#"{"other":1}"#).is_err());
}

#[test]
fn decode_malformed_entry_fails() {
    // missing required fields
    assert!(decode_alerts(r#"{"alerts":[{"severity":"page"}]}"#).is_err());
    // a required field of the wrong type
    assert!(decode_alerts(r#"{"alerts":[{"severity":1,"event":"A","resource":"B"}]}"#).is_err());
    assert!(decode_alerts(r#"{"alerts":[{"severity":"page","event":null,"resource":"B"}]}"#).is_err());
    // an entry that is no object
    assert!(decode_alerts(r#"{"alerts":[17]}"#).is_err());
    // alerts that is no array
    assert!(decode_alerts(r#"{"alerts":{"severity":"page"}}"#).is_err());
}

#[test]
fn decode_malformed_json_fails() {
    assert!(decode_alerts("").is_err());
    assert!(decode_alerts("{").is_err());
    assert!(decode_alerts("not json").is_err());
    assert!(decode_alerts(r#"{"alerts":[}"#).is_err());
    assert!(decode_alerts(r#"{"alerts":[{"severity":"page","event":"A","resource":"A"},]}"#).is_err());
}

#[test]
fn decode_trailing_garbage_fails() {
    assert!(decode_alerts(r#"{"alerts":[]} x"#).is_err());
    assert!(decode_alerts(r#"{"alerts":[]}{"alerts":[]}"#).is_err());
}

#[test]
fn decode_ignores_unknown_fields() {
    let body = r#"{
        "status": "ok",
        "meta": {"count": 1, "nested": [true, false, null, 1.5e3, {"deep": "x"}]},
        "alerts": [
            {"id": 7, "severity": "warn", "tags": ["a", "b"], "event": "E", "resource": "R", "extra": -0.25}
        ],
        "more": null
    }"#;
    let alerts = decode_alerts(body).unwrap();
    assert_eq!(alerts, vec![alert(Severity::Warn, "E", "R")]);
}

#[test]
fn decode_unknown_severity_is_other() {
    let body = r#"{"alerts":[
        {"severity":"critical","event":"a","resource":"r"},
        {"severity":"warn","event":"b","resource":"r"},
        {"severity":"","event":"c","resource":"r"}
    ]}"#;
    let alerts = decode_alerts(body).unwrap();
    assert_eq!(alerts[0].severity, Severity::Other);
    assert_eq!(alerts[1].severity, Severity::Warn);
    assert_eq!(alerts[2].severity, Severity::Other);
}

#[test]
fn decode_string_escapes() {
    let body = r#"{"alerts":[{"severity":"page","event":"a\nb\"c\\d\/e\tf","resource":"Aé"}]}"#;
    let alerts = decode_alerts(body).unwrap();
    assert_eq!(alerts[0].event, "a\nb\"c\\d/e\tf");
    assert_eq!(alerts[0].resource, "A\u{e9}");
}

#[test]
fn decode_surrogate_pair_escape() {
    let body = r#"{"alerts":[{"severity":"page","event":"\ud83d\ude0c","resource":"r"}]}"#;
    let alerts = decode_alerts(body).unwrap();
    assert_eq!(alerts[0].event, "\u{1f60c}");
}

#[test]
fn decode_lone_surrogate_fails() {
    assert!(decode_alerts(r#"{"alerts":[{"severity":"page","event":"\ud83d","resource":"r"}]}"#).is_err());
    assert!(decode_alerts(r#"{"alerts":[{"severity":"page","event":"\ude0c","resource":"r"}]}"#).is_err());
}

#[test]
fn decode_duplicate_field_fails() {
    assert!(
        decode_alerts(r#"{"alerts":[{"severity":"page","severity":"warn","event":"A","resource":"A"}]}"#)
            .is_err()
    );
    assert!(decode_alerts(r#"{"alerts":[],"alerts":[]}"#).is_err());
}
