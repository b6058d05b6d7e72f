use hootie::alerts::{sort_alerts, Alert, Severity};
use hootie::render::{display_line, render_frame};

const CLEAR: &str = "\u{1b}[2J";
const GOTO: &str = "\u{1b}[1;1H";
const RED: &str = "\u{1b}[38;5;1m";
const GREEN: &str = "\u{1b}[38;5;2m";
const YELLOW: &str = "\u{1b}[38;5;3m";
const WHITE: &str = "\u{1b}[38;5;7m";
const RESET: &str = "\u{1b}[39m";

#[test]
fn test_alert_sort_order() {
    // Two alerts with the same resource and events
    // We check that the severity sorts one above the
    // other.
    let crit_alert = Alert {
        severity: Severity::Page,
        resource: "A".into(),
        event: "A".into(),
    };
    let warn_alert = Alert {
        severity: Severity::Warn,
        resource: "A".into(),
        event: "A".into(),
    };
    let crit_alert_2 = crit_alert.clone();
    let warn_alert_2 = warn_alert.clone();
    let mut alerts = vec![warn_alert, crit_alert];
    sort_alerts(&mut alerts);

    let expected = vec![crit_alert_2, warn_alert_2];
    assert_eq!(alerts, expected);
}

#[test]
fn test_page_alert_format() {
    // [38;5;<color>m - set foreground color
    // In 256 color mode, color 1 is red.
    // \u{1b}[39m - reset colors.
    // And our expected value is "A : A"
    let expected = "\u{1b}[38;5;1mA : A\u{1b}[39m";

    let crit_alert = Alert {
        severity: Severity::Page,
        resource: "A".into(),
        event: "A".into(),
    };

    assert_eq!(display_line(&crit_alert), expected);
}

fn alert(severity: Severity, event: &str, resource: &str) -> Alert {
    Alert {
        severity,
        event: event.to_string(),
        resource: resource.to_string(),
    }
}

#[test]
fn sort_puts_more_urgent_first_whatever_the_strings() {
    let mut alerts = vec![
        alert(Severity::Other, "aaa", "aaa"),
        alert(Severity::Warn, "bbb", "bbb"),
        alert(Severity::Page, "zzz", "zzz"),
    ];
    sort_alerts(&mut alerts);
    assert_eq!(
        alerts,
        vec![
            alert(Severity::Page, "zzz", "zzz"),
            alert(Severity::Warn, "bbb", "bbb"),
            alert(Severity::Other, "aaa", "aaa"),
        ]
    );
}

#[test]
fn sort_breaks_ties_by_event_then_resource() {
    let mut alerts = vec![
        alert(Severity::Warn, "beta", "r1"),
        alert(Severity::Warn, "alpha", "r2"),
        alert(Severity::Warn, "alpha", "r1"),
    ];
    sort_alerts(&mut alerts);
    assert_eq!(
        alerts,
        vec![
            alert(Severity::Warn, "alpha", "r1"),
            alert(Severity::Warn, "alpha", "r2"),
            alert(Severity::Warn, "beta", "r1"),
        ]
    );
}

#[test]
fn sort_is_idempotent() {
    let mut alerts = vec![
        alert(Severity::Warn, "b", "1"),
        alert(Severity::Page, "a", "2"),
        alert(Severity::Page, "a", "1"),
        alert(Severity::Other, "c", "3"),
    ];
    sort_alerts(&mut alerts);
    let once = alerts.clone();
    sort_alerts(&mut alerts);
    assert_eq!(alerts, once);
}

#[test]
fn warn_and_other_lines_use_yellow_and_white() {
    let warn = alert(Severity::Warn, "ev", "res");
    let other = alert(Severity::Other, "ev", "res");
    assert_eq!(display_line(&warn), format!("{YELLOW}ev : res{RESET}"));
    assert_eq!(display_line(&other), format!("{WHITE}ev : res{RESET}"));
}

#[test]
fn empty_frame_shows_all_clear() {
    let frame = render_frame(&vec![]);
    let expected = format!("{CLEAR}{GOTO}Alerta alerts\n\n{GREEN}No alerts, all is OK! \u{1f60c}{RESET}");
    assert_eq!(frame, expected);
}

#[test]
fn frame_lists_one_colored_line_per_alert_in_order() {
    let alerts = vec![
        alert(Severity::Page, "disk-full", "db1"),
        alert(Severity::Warn, "svc-down", "db1"),
        alert(Severity::Other, "note", "db2"),
    ];
    let frame = render_frame(&alerts);
    let expected = format!(
        "{CLEAR}{GOTO}Alerta alerts\n\n{RED}disk-full : db1{RESET}\n{YELLOW}svc-down : db1{RESET}\n{WHITE}note : db2{RESET}\n"
    );
    assert_eq!(frame, expected);
}
