//! Rendering reporting windows as the lines of a notification message.
use vstd::prelude::*;

use std::fmt::Write;

use crate::period::ForecastPeriod;
use crate::window::{bike_windows, bikeable_periods, coalesced, windows_view, ReportingWindow, WindowView};

verus! {

/// How a window's start is shown: weekday, month, day, then 12-hour time.
pub const START_PATTERN: &'static str = "%A, %B %d %I:%M%p";

/// How a window's end is shown: the 12-hour time alone.
pub const END_PATTERN: &'static str = "%I:%M%p";

/// The first line of every message.
pub const HEADER: &'static str = "☀️Good bike times in the next 7 days☀️";

pub open spec fn digit_char(d: nat) -> char {
    (48 + d) as char
}

/// The decimal digits of `n`, with no leading zero.
pub open spec fn natural_text(n: nat) -> Seq<char>
    decreases n,
{
    if n < 10 {
        seq![digit_char(n)]
    } else {
        natural_text(n / 10) + seq![digit_char(n % 10)]
    }
}

/// The decimal text of `n`, with a `-` in front when it is negative.
pub open spec fn decimal_text(n: int) -> Seq<char> {
    if n < 0 {
        seq!['-'] + natural_text((-n) as nat)
    } else {
        natural_text(n as nat)
    }
}

/// The text of timestamp `ts` (RFC 3339) shown by the strftime-style
/// `pattern`, or `None` when `ts` is not a valid RFC 3339 timestamp or the
/// pattern cannot be applied.
pub uninterp spec fn rfc3339_formatted(ts: Seq<char>, pattern: Seq<char>) -> Option<Seq<char>>;

/// Relies on chrono's `DateTime::parse_from_rfc3339`, then `DateTime::format`
/// written out through its `Display`: the text depends on the two arguments
/// alone (no locale is involved), and an error of either step gives `None`.
#[verifier::external_body]
fn format_timestamp(ts: &str, pattern: &str) -> (r: Option<String>)
    ensures
        match r {
            Some(t) => rfc3339_formatted(ts@, pattern@) == Some(t@),
            None => rfc3339_formatted(ts@, pattern@) is None,
        },
{
    let d = chrono::DateTime::parse_from_rfc3339(ts).ok()?;
    let mut out = String::new();
    write!(out, "{}", d.format(pattern)).ok()?;
    Some(out)
}

/// Relies on the `Display` of `i64` (through `ToString`): an optional `-`,
/// then the decimal digits without leading zeros.
#[verifier::external_body]
fn int_text(n: i64) -> (r: String)
    ensures
        r@ == decimal_text(n as int),
{
    n.to_string()
}

/// The line of a window whose start and end have been formatted as
/// `start` and `end`.
pub open spec fn line_text(start: Seq<char>, end: Seq<char>, w: WindowView) -> Seq<char> {
    "🚲 "@ + start + " - "@ + end + " temp "@ + decimal_text(w.temperature) + "F precipitation "@
        + decimal_text(w.precipitation) + "% wind speed "@ + decimal_text(w.wind) + " mph"@
}

/// The line of a window, or `None` when one of its timestamps cannot be read.
pub open spec fn pretty_text(w: WindowView) -> Option<Seq<char>> {
    match (rfc3339_formatted(w.start, START_PATTERN@), rfc3339_formatted(w.end, END_PATTERN@)) {
        (Some(a), Some(b)) => Some(line_text(a, b, w)),
        _ => None,
    }
}

/// The lines of the windows joined by newlines, or `None` when one of them
/// cannot be rendered.
pub open spec fn lines_text(ws: Seq<WindowView>) -> Option<Seq<char>>
    decreases ws.len(),
{
    if ws.len() == 0 {
        Some(Seq::empty())
    } else {
        match (lines_text(ws.drop_last()), pretty_text(ws.last())) {
            (Some(body), Some(line)) => Some(
                if ws.len() == 1 {
                    line
                } else {
                    body + "\n"@ + line
                },
            ),
            _ => None,
        }
    }
}

/// The whole message: the header, a newline, then the windows' lines.
pub open spec fn message_text(ws: Seq<WindowView>) -> Option<Seq<char>> {
    match lines_text(ws) {
        Some(body) => Some(HEADER@ + "\n"@ + body),
        None => None,
    }
}

/// Renders a window's line from its start and end already formatted.
pub fn render_line(start: &str, end: &str, w: &ReportingWindow) -> (r: String)
    ensures
        r@ == line_text(start@, end@, w@),
{
    let mut out = String::from_str("🚲 ");
    out.append(start);
    out.append(" - ");
    out.append(end);
    out.append(" temp ");
    out.append(int_text(w.max_temperature).as_str());
    out.append("F precipitation ");
    out.append(int_text(w.max_precipitation_probability).as_str());
    out.append("% wind speed ");
    out.append(int_text(w.max_wind_speed as i64).as_str());
    out.append(" mph");
    assert(out@ =~= line_text(start@, end@, w@));
    out
}

impl ReportingWindow {
    /// The window as one message line, e.g.
    /// `🚲 Thursday, June 01 09:00AM - 12:00PM temp 70F precipitation 5% wind speed 8 mph`;
    /// `None` when a timestamp is not valid RFC 3339.
    pub fn pretty(&self) -> (r: Option<String>)
        ensures
            match r {
                Some(t) => pretty_text(self@) == Some(t@),
                None => pretty_text(self@) is None,
            },
    {
        let start = format_timestamp(self.start_time.as_str(), START_PATTERN);
        let end = format_timestamp(self.end_time.as_str(), END_PATTERN);
        match (start, end) {
            (Some(a), Some(b)) => Some(render_line(a.as_str(), b.as_str(), self)),
            _ => None,
        }
    }
}

/// The notification message for the windows, or `None` when a window's
/// timestamp is not valid RFC 3339.
pub fn format_message(ws: &Vec<ReportingWindow>) -> (r: Option<String>)
    ensures
        match r {
            Some(t) => message_text(windows_view(ws@)) == Some(t@),
            None => message_text(windows_view(ws@)) is None,
        },
{
    let ghost vs = windows_view(ws@);
    let mut out = String::from_str(HEADER);
    out.append("\n");
    let mut i: usize = 0;
    while i < ws.len()
        invariant
            i <= ws.len(),
            vs == windows_view(ws@),
            lines_text(vs.take(i as int)) is Some,
            out@ == HEADER@ + "\n"@ + lines_text(vs.take(i as int))->Some_0,
        decreases ws.len() - i,
    {
        let ghost before = out@;
        assert(vs.take(i + 1).drop_last() =~= vs.take(i as int));
        match ws[i].pretty() {
            Some(line) => {
                if i > 0 {
                    out.append("\n");
                }
                out.append(line.as_str());
                if i > 0 {
                    assert(out@ =~= before + "\n"@ + line@);
                } else {
                    assert(out@ =~= before + line@);
                }
            },
            None => {
                proof {
                    lemma_lines_fail(vs, i as int);
                }
                return None;
            },
        }
        i = i + 1;
    }
    assert(vs.take(i as int) =~= vs);
    Some(out)
}

/// The message for a whole forecast: its good hours, merged into windows and
/// rendered; `None` when a window's timestamp is not valid RFC 3339.
pub fn bike_report(periods: &Vec<ForecastPeriod>) -> (r: Option<String>)
    ensures
        match r {
            Some(t) => message_text(coalesced(bikeable_periods(periods@))) == Some(t@),
            None => message_text(coalesced(bikeable_periods(periods@))) is None,
        },
{
    let windows = bike_windows(periods);
    format_message(&windows)
}

/// A window that cannot be rendered makes every longer message fail too.
proof fn lemma_lines_fail(vs: Seq<WindowView>, i: int)
    requires
        0 <= i < vs.len(),
        pretty_text(vs[i]) is None,
    ensures
        lines_text(vs) is None,
    decreases vs.len(),
{
    if i < vs.len() - 1 {
        lemma_lines_fail(vs.drop_last(), i);
    }
}

} // verus!
