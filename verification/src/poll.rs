//! The decision made in one poll cycle.
//!
//! The surrounding binary runs the loop: it performs the HTTP GET, hands
//! the outcome to [`poll_cycle`], carries out the returned action — draw a
//! frame on the alternate screen, or print a diagnostic line — and sleeps
//! for the fixed interval before the next cycle. The loop never stops on a
//! fetch or decode failure; only a terminal write failure is fatal. Both
//! possible actions leave the loop running: [`CycleAction`] has no
//! terminating variant.
use vstd::prelude::*;
use vstd::string::StringExecFns;

use crate::alerts::{alert_views, sort_alerts, sorted_alerts};
use crate::json::{decode_alerts, spec_decode};
use crate::render::{frame_view, render_frame};

verus! {

/// How long the loop sleeps between two poll cycles, in seconds.
pub const POLL_INTERVAL_SECS: u64 = 10;

/// What one poll cycle asks of the terminal: draw a fresh frame, or print
/// a diagnostic line and keep the previous screen.
pub enum CycleAction {
    Render(String),
    Report(String),
}

/// The diagnostic line printed when the alert source cannot be reached;
/// the transport's own description follows the fixed prefix.
pub open spec fn transport_report(msg: Seq<char>) -> Seq<char> {
    "ERROR: Could not contact Alerta: "@ + msg
}

/// The diagnostic line printed when the response body cannot be decoded.
pub open spec fn decode_report() -> Seq<char> {
    "ERROR: Could not understand the response from Alerta."@
}

/// Decide one poll cycle from the outcome of the fetch. A body that
/// decodes is sorted by urgency and rendered as a full frame; a body that
/// does not decode, or a transport failure, becomes a diagnostic report,
/// and the loop carries on either way.
pub fn poll_cycle(fetched: Result<String, String>) -> (r: CycleAction)
    ensures
        match fetched {
            Ok(body) => match spec_decode(body@) {
                Some(alerts) => r matches CycleAction::Render(f) && f@ == frame_view(
                    sorted_alerts(alerts),
                ),
                None => r matches CycleAction::Report(m) && m@ == decode_report(),
            },
            Err(msg) => r matches CycleAction::Report(m) && m@ == transport_report(msg@),
        },
{
    match fetched {
        Ok(body) => match decode_alerts(body.as_str()) {
            Ok(mut alerts) => {
                sort_alerts(&mut alerts);
                CycleAction::Render(render_frame(&alerts))
            },
            Err(_) => CycleAction::Report(
                String::from_str("ERROR: Could not understand the response from Alerta."),
            ),
        },
        Err(msg) => {
            let mut m = String::from_str("ERROR: Could not contact Alerta: ");
            m.append(msg.as_str());
            CycleAction::Report(m)
        },
    }
}

} // verus!
