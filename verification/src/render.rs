//! Construction of one full terminal frame.
//!
//! A frame clears the screen, moves the cursor to the origin, writes the
//! header, and then either the all-clear message (for an empty collection)
//! or one severity-colored line per alert. The frame is built here as one
//! string; the surrounding binary writes it to the alternate screen and
//! flushes, so the frame appears atomically.
use vstd::prelude::*;
use vstd::string::StringExecFns;

use crate::alerts::{alert_views, Alert, AlertView, Severity};
use crate::term;

verus! {

/// The foreground escape chosen for a severity: red for `Page`, yellow for
/// `Warn`, white for anything else.
pub open spec fn severity_color(s: Severity) -> Seq<char> {
    match s {
        Severity::Page => term::red_fg(),
        Severity::Warn => term::yellow_fg(),
        Severity::Other => term::white_fg(),
    }
}

/// The display line for one alert: the severity's color escape, the event,
/// a separator, the resource, and the reset escape. No trailing newline.
pub open spec fn line_view(a: AlertView) -> Seq<char> {
    severity_color(a.severity) + a.event + " : "@ + a.resource + term::reset_fg()
}

/// The newline-terminated display lines of a collection, in order.
pub open spec fn lines_view(s: Seq<AlertView>) -> Seq<char>
    decreases s.len(),
{
    if s.len() == 0 {
        Seq::empty()
    } else {
        line_view(s[0]) + "\n"@ + lines_view(s.drop_first())
    }
}

/// Everything a frame starts with: clear the screen, move the cursor to
/// the origin, write the header line and a blank line.
pub open spec fn frame_prefix() -> Seq<char> {
    term::clear_all() + term::goto_origin() + "Alerta alerts\n\n"@
}

/// The green all-clear message shown in place of alert lines when the
/// collection is empty.
pub open spec fn all_clear_view() -> Seq<char> {
    term::green_fg() + "No alerts, all is OK! \u{1f60c}"@ + term::reset_fg()
}

/// One full terminal frame for a collection of alerts.
pub open spec fn frame_view(s: Seq<AlertView>) -> Seq<char> {
    if s.len() == 0 {
        frame_prefix() + all_clear_view()
    } else {
        frame_prefix() + lines_view(s)
    }
}

/// Appending one alert at the end of a collection appends its line at the
/// end of the rendered lines.
proof fn lemma_lines_view_push(s: Seq<AlertView>, a: AlertView)
    ensures
        lines_view(s.push(a)) == lines_view(s) + line_view(a) + "\n"@,
    decreases s.len(),
{
    if s.len() == 0 {
        assert(s.push(a)[0] == a);
        assert(s.push(a).drop_first() =~= Seq::<AlertView>::empty());
        assert(lines_view(s.push(a).drop_first()) =~= Seq::<char>::empty());
        assert(lines_view(s) =~= Seq::<char>::empty());
        assert(lines_view(s.push(a)) =~= lines_view(s) + line_view(a) + "\n"@);
    } else {
        assert(s.push(a).drop_first() =~= s.drop_first().push(a));
        lemma_lines_view_push(s.drop_first(), a);
        assert(lines_view(s.push(a)) =~= lines_view(s) + line_view(a) + "\n"@);
    }
}

/// Build the display line for one alert.
pub fn display_line(a: &Alert) -> (r: String)
    ensures
        r@ == line_view(a@),
{
    let mut s = String::new();
    match a.severity {
        Severity::Page => s.append(term::term_red_fg()),
        Severity::Warn => s.append(term::term_yellow_fg()),
        Severity::Other => s.append(term::term_white_fg()),
    }
    s.append(a.event.as_str());
    s.append(" : ");
    s.append(a.resource.as_str());
    s.append(term::term_reset_fg());
    s
}

/// Build one full terminal frame for a collection of alerts, as the string
/// that one poll cycle writes to the terminal.
pub fn render_frame(alerts: &Vec<Alert>) -> (r: String)
    ensures
        r@ == frame_view(alert_views(alerts@)),
{
    let ghost views = alert_views(alerts@);
    let mut s = String::new();
    s.append(term::term_clear_all());
    let goto = term::term_goto_origin();
    s.append(goto.as_str());
    s.append("Alerta alerts\n\n");
    assert(s@ == frame_prefix());
    if alerts.len() == 0 {
        s.append(term::term_green_fg());
        s.append("No alerts, all is OK! \u{1f60c}");
        s.append(term::term_reset_fg());
        assert(s@ == frame_prefix() + all_clear_view());
    } else {
        let mut i: usize = 0;
        while i < alerts.len()
            invariant
                i <= alerts@.len(),
                views == alert_views(alerts@),
                s@ == frame_prefix() + lines_view(views.take(i as int)),
            decreases alerts@.len() - i,
        {
            let line = display_line(&alerts[i]);
            s.append(line.as_str());
            s.append("\n");
            proof {
                assert(views.take(i + 1 as int) =~= views.take(i as int).push(views[i as int]));
                lemma_lines_view_push(views.take(i as int), views[i as int]);
            }
            i += 1;
        }
        proof {
            assert(views.take(views.len() as int) =~= views);
        }
    }
    s
}

/// Law: the frame for an empty collection consists of the frame prefix —
/// the clear and cursor-origin escapes and the header — followed by the
/// green all-clear message, and holds no alert lines.
pub proof fn lemma_frame_empty(s: Seq<AlertView>)
    requires
        s.len() == 0,
    ensures
        frame_view(s) == frame_prefix() + term::green_fg() + "No alerts, all is OK! \u{1f60c}"@
            + term::reset_fg(),
{
    assert(frame_view(s) =~= frame_prefix() + term::green_fg()
        + "No alerts, all is OK! \u{1f60c}"@ + term::reset_fg());
}

/// Law: the frame for a non-empty collection is the frame prefix followed
/// by exactly one newline-terminated line per alert, in collection order;
/// each line starts with the color escape for that alert's severity and
/// ends with the reset escape.
pub proof fn lemma_frame_lines(s: Seq<AlertView>)
    requires
        s.len() > 0,
    ensures
        frame_view(s) == frame_prefix() + lines_view(s),
        lines_view(s) == line_view(s[0]) + "\n"@ + lines_view(s.drop_first()),
        forall|a: AlertView| #[trigger] line_view(a) == severity_color(a.severity) + a.event
            + " : "@ + a.resource + term::reset_fg(),
{
}

} // verus!
