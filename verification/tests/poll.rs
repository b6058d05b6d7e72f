use hootie::poll::{poll_cycle, CycleAction, POLL_INTERVAL_SECS};

const CLEAR: &str = "\u{1b}[2J";
const GOTO: &str = "\u{1b}[1;1H";
const RED: &str = "\u{1b}[38;5;1m";
const YELLOW: &str = "\u{1b}[38;5;3m";
const RESET: &str = "\u{1b}[39m";

#[test]
fn cycle_renders_sorted_frame() {
    let body = r#"{"alerts":[
        {"severity":"warn","event":"svc-down","resource":"db1"},
        {"severity":"page","event":"disk-full","resource":"db1"}
    ]}"#;
    match poll_cycle(Ok(body.to_string())) {
        CycleAction::Render(frame) => {
            let expected = format!(
                "{CLEAR}{GOTO}Alerta alerts\n\n{RED}disk-full : db1{RESET}\n{YELLOW}svc-down : db1{RESET}\n"
            );
            assert_eq!(frame, expected);
        }
        CycleAction::Report(msg) => panic!("expected a frame, got a report: {msg}"),
    }
}

#[test]
fn cycle_reports_transport_failure_and_carries_on() {
    match poll_cycle(Err("connection refused".to_string())) {
        CycleAction::Report(msg) => {
            assert_eq!(msg, "ERROR: Could not contact Alerta: connection refused");
        }
        CycleAction::Render(_) => panic!("expected a report"),
    }
    // the loop goes on polling: a later successful fetch still renders
    match poll_cycle(Ok(r#"{"alerts":[]}"#.to_string())) {
        CycleAction::Render(_) => {}
        CycleAction::Report(msg) => panic!("expected a frame, got a report: {msg}"),
    }
}

#[test]
fn cycle_reports_decode_failure() {
    match poll_cycle(Ok("nonsense".to_string())) {
        CycleAction::Report(msg) => {
            assert_eq!(msg, "ERROR: Could not understand the response from Alerta.");
        }
        CycleAction::Render(_) => panic!("expected a report"),
    }
}

#[test]
fn poll_interval_is_ten_seconds() {
    assert_eq!(POLL_INTERVAL_SECS, 10);
}
