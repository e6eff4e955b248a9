//! The per-line work of an output pump: detecting an embedded service
//! URL on a line of process output, and turning lines and supervisor
//! messages into structured log records.
//!
//! A URL is announced by a case-insensitive `local:` label, then at
//! least one whitespace character, then a whitespace-free token
//! starting with `http://` or `https://`.  The first such label on
//! the line whose remainder fits this shape wins, and the URL is the
//! whole whitespace-free token.

use vstd::prelude::*;

use crate::events::LogEvent;
use crate::text::{chars_of, concat2, is_space, is_space_char, lower_char, lower_char_of,
    lower_seq, upper_seq, ascii_lower, ascii_upper, str_equal};

verus! {

/// The case-insensitive label `local:` starts at position `i`.
pub open spec fn label_at(s: Seq<char>, i: int) -> bool {
    &&& 0 <= i
    &&& i + 6 <= s.len()
    &&& lower_char(s[i]) == 'l'
    &&& lower_char(s[i + 1]) == 'o'
    &&& lower_char(s[i + 2]) == 'c'
    &&& lower_char(s[i + 3]) == 'a'
    &&& lower_char(s[i + 4]) == 'l'
    &&& s[i + 5] == ':'
}

/// The first position at or after `i` holding a non-whitespace
/// character (or the length of `s`).
pub open spec fn ws_end(s: Seq<char>, i: int) -> int
    decreases s.len() - i,
{
    if i < 0 || i >= s.len() {
        i
    } else if is_space(s[i]) {
        ws_end(s, i + 1)
    } else {
        i
    }
}

/// The first position at or after `i` holding a whitespace character
/// (or the length of `s`): the end of the token starting at `i`.
pub open spec fn token_end(s: Seq<char>, i: int) -> int
    decreases s.len() - i,
{
    if i < 0 || i >= s.len() {
        i
    } else if !is_space(s[i]) {
        token_end(s, i + 1)
    } else {
        i
    }
}

/// `http://` starts at position `j`.
pub open spec fn http_at(s: Seq<char>, j: int) -> bool {
    &&& 0 <= j
    &&& j + 7 <= s.len()
    &&& s[j] == 'h'
    &&& s[j + 1] == 't'
    &&& s[j + 2] == 't'
    &&& s[j + 3] == 'p'
    &&& s[j + 4] == ':'
    &&& s[j + 5] == '/'
    &&& s[j + 6] == '/'
}

/// `https://` starts at position `j`.
pub open spec fn https_at(s: Seq<char>, j: int) -> bool {
    &&& 0 <= j
    &&& j + 8 <= s.len()
    &&& s[j] == 'h'
    &&& s[j + 1] == 't'
    &&& s[j + 2] == 't'
    &&& s[j + 3] == 'p'
    &&& s[j + 4] == 's'
    &&& s[j + 5] == ':'
    &&& s[j + 6] == '/'
    &&& s[j + 7] == '/'
}

/// The length of the URL scheme starting at `j`, or 0 if none does.
pub open spec fn scheme_len(s: Seq<char>, j: int) -> int {
    if https_at(s, j) {
        8
    } else if http_at(s, j) {
        7
    } else {
        0
    }
}

/// A full URL announcement starts at position `i`: the label, at
/// least one whitespace character, a scheme, and at least one more
/// non-whitespace character after the scheme.
pub open spec fn url_match_at(s: Seq<char>, i: int) -> bool {
    let j = ws_end(s, i + 6);
    &&& label_at(s, i)
    &&& j > i + 6
    &&& scheme_len(s, j) > 0
    &&& j + scheme_len(s, j) < s.len()
    &&& !is_space(s[j + scheme_len(s, j)])
}

/// The URL announced at position `i`: the whole whitespace-free token
/// after the label's whitespace.
pub open spec fn url_text(s: Seq<char>, i: int) -> Seq<char> {
    let j = ws_end(s, i + 6);
    s.subrange(j, token_end(s, j))
}

/// The first position with a full URL announcement, or the length of
/// `s` when the line has none.
pub open spec fn find_url_match(s: Seq<char>, i: int) -> int
    decreases s.len() - i,
{
    if i >= s.len() {
        s.len() as int
    } else if url_match_at(s, i) {
        i
    } else {
        find_url_match(s, i + 1)
    }
}

/// The first non-whitespace position at or after `from`.
fn ws_run_end(v: &Vec<char>, from: usize) -> (r: usize)
    requires
        from <= v@.len(),
    ensures
        r == ws_end(v@, from as int),
        from <= r <= v@.len(),
{
    let mut i = from;
    while i < v.len()
        invariant
            from <= i <= v@.len(),
            ws_end(v@, from as int) == ws_end(v@, i as int),
        decreases v@.len() - i,
    {
        if !is_space_char(v[i]) {
            return i;
        }
        i = i + 1;
    }
    i
}

/// The first whitespace position at or after `from`.
fn token_run_end(v: &Vec<char>, from: usize) -> (r: usize)
    requires
        from <= v@.len(),
    ensures
        r == token_end(v@, from as int),
        from <= r <= v@.len(),
{
    let mut i = from;
    while i < v.len()
        invariant
            from <= i <= v@.len(),
            token_end(v@, from as int) == token_end(v@, i as int),
        decreases v@.len() - i,
    {
        if is_space_char(v[i]) {
            return i;
        }
        i = i + 1;
    }
    i
}

/// Checks for a full URL announcement at position `i` and returns the
/// URL's span when there is one.
fn check_match_at(v: &Vec<char>, i: usize) -> (r: Option<(usize, usize)>)
    requires
        i <= v@.len(),
    ensures
        match r {
            Some(span) => url_match_at(v@, i as int) && span.0 == ws_end(v@, i as int + 6)
                && span.1 == token_end(v@, span.0 as int) && span.0 <= span.1 <= v@.len(),
            None => !url_match_at(v@, i as int),
        },
{
    if v.len() - i < 6 {
        return None;
    }
    if !(lower_char_of(v[i]) == 'l' && lower_char_of(v[i + 1]) == 'o' && lower_char_of(v[i + 2])
        == 'c' && lower_char_of(v[i + 3]) == 'a' && lower_char_of(v[i + 4]) == 'l' && v[i + 5]
        == ':') {
        return None;
    }
    let j = ws_run_end(v, i + 6);
    if j == i + 6 {
        return None;
    }
    let n = v.len();
    let slen: usize = if n - j >= 8 && v[j] == 'h' && v[j + 1] == 't' && v[j + 2] == 't' && v[j + 3]
        == 'p' && v[j + 4] == 's' && v[j + 5] == ':' && v[j + 6] == '/' && v[j + 7] == '/' {
        8
    } else if n - j >= 7 && v[j] == 'h' && v[j + 1] == 't' && v[j + 2] == 't' && v[j + 3] == 'p'
        && v[j + 4] == ':' && v[j + 5] == '/' && v[j + 6] == '/' {
        7
    } else {
        return None;
    };
    if n - j <= slen {
        return None;
    }
    if is_space_char(v[j + slen]) {
        return None;
    }
    let end = token_run_end(v, j);
    Some((j, end))
}

/// Scans a line of process output for an announced service URL: a
/// case-insensitive `local:` label, whitespace, and a whitespace-free
/// `http(s)://` token.  Returns the token of the first announcement,
/// or `None` when the line has none.
pub fn extract_vite_url(line: &str) -> (r: Option<String>)
    ensures
        match r {
            Some(u) => find_url_match(line@, 0) < line@.len() && u@ == url_text(
                line@,
                find_url_match(line@, 0),
            ),
            None => find_url_match(line@, 0) == line@.len(),
        },
{
    let v = chars_of(line);
    let n = v.len();
    let mut i: usize = 0;
    while i < n
        invariant
            i <= n,
            n == v@.len(),
            v@ == line@,
            find_url_match(line@, 0) == find_url_match(line@, i as int),
        decreases n - i,
    {
        match check_match_at(&v, i) {
            Some(span) => {
                let u = line.substring_char(span.0, span.1);
                return Some(String::from_str(u));
            },
            None => {},
        }
        i = i + 1;
    }
    None
}

/// The color-escape code that opens a log prefix: red for errors,
/// orange for the supervisor's own messages, blue for service output.
pub open spec fn prefix_color_code(source: Seq<char>, is_error: bool) -> Seq<char> {
    if is_error {
        "\x1b[38;5;196m"@
    } else if lower_seq(source) == "system"@ {
        "\x1b[38;5;214m"@
    } else {
        "\x1b[38;5;75m"@
    }
}

/// The full log prefix: color code, bracketed uppercased source label
/// (with ` ERROR` appended for errors), color reset, one space.
pub open spec fn log_prefix(source: Seq<char>, is_error: bool) -> Seq<char> {
    prefix_color_code(source, is_error) + "["@ + upper_seq(source) + (if is_error {
        " ERROR]"@
    } else {
        "]"@
    }) + "\x1b[0m"@ + " "@
}

/// Builds the colorized prefix put in front of every log line.
pub fn format_log_prefix(source: &str, is_error: bool) -> (r: String)
    ensures
        r@ == log_prefix(source@, is_error),
{
    let color: &str = if is_error {
        "\x1b[38;5;196m"
    } else {
        let low = ascii_lower(source);
        if str_equal(low.as_str(), "system") {
            "\x1b[38;5;214m"
        } else {
            "\x1b[38;5;75m"
        }
    };
    let upper = ascii_upper(source);
    let mut r = String::from_str(color);
    r.append("[");
    r.append(upper.as_str());
    if is_error {
        r.append(" ERROR]");
    } else {
        r.append("]");
    }
    r.append("\x1b[0m");
    r.append(" ");
    r
}

/// Relies on `chrono::Local::now` and `DateTime::format`: the current
/// local wall-clock time rendered as `HH:MM:SS.mmm`.
#[verifier::external_body]
fn now_timestamp() -> (r: String) {
    chrono::Local::now().format("%H:%M:%S%.3f").to_string()
}

/// The level label for a severity.
pub open spec fn level_of(is_error: bool) -> Seq<char> {
    if is_error {
        "error"@
    } else {
        "normal"@
    }
}

/// A supervisor-sourced log record: `system` source, prefixed body,
/// current wall-clock timestamp.
pub fn system_log_event(body: &str, is_error: bool, project_id: &str) -> (e: LogEvent)
    ensures
        e.source@ == "system"@,
        e.level@ == level_of(is_error),
        e.text@ == log_prefix("system"@, is_error) + body@,
        e.project_id@ == project_id@,
{
    let prefix = format_log_prefix("system", is_error);
    let text = concat2(prefix.as_str(), body);
    let level = if is_error {
        String::from_str("error")
    } else {
        String::from_str("normal")
    };
    LogEvent {
        source: String::from_str("system"),
        level,
        text,
        timestamp: now_timestamp(),
        project_id: String::from_str(project_id),
    }
}

/// The log record an output pump emits for one line of a service's
/// output: source is the lowercased service name, severity comes from
/// which stream the line arrived on, and the text is the colorized
/// prefix followed by the line itself.
pub fn stream_log_event(service_name: &str, line: &str, is_error: bool, project_id: &str) -> (e:
    LogEvent)
    ensures
        e.source@ == lower_seq(service_name@),
        e.level@ == level_of(is_error),
        e.text@ == log_prefix(service_name@, is_error) + line@,
        e.project_id@ == project_id@,
{
    let prefix = format_log_prefix(service_name, is_error);
    let text = concat2(prefix.as_str(), line);
    let level = if is_error {
        String::from_str("error")
    } else {
        String::from_str("normal")
    };
    let source = ascii_lower(service_name);
    LogEvent {
        source,
        level,
        text,
        timestamp: now_timestamp(),
        project_id: String::from_str(project_id),
    }
}

/// What one line of output yields: the URL to record and announce, if
/// detection is on and the line announces one, and the log record.
pub struct PumpOutput {
    pub url: Option<String>,
    pub log: LogEvent,
}

/// The per-line step of an output pump: URL detection (when enabled
/// for the service) and the line's log record.
pub fn pump_line(
    service_name: &str,
    line: &str,
    is_error: bool,
    detect_url: bool,
    project_id: &str,
) -> (r: PumpOutput)
    ensures
        !detect_url ==> r.url is None,
        detect_url ==> match r.url {
            Some(u) => find_url_match(line@, 0) < line@.len() && u@ == url_text(
                line@,
                find_url_match(line@, 0),
            ),
            None => find_url_match(line@, 0) == line@.len(),
        },
        r.log.source@ == lower_seq(service_name@),
        r.log.level@ == level_of(is_error),
        r.log.text@ == log_prefix(service_name@, is_error) + line@,
        r.log.project_id@ == project_id@,
{
    let url = if detect_url {
        extract_vite_url(line)
    } else {
        None
    };
    let log = stream_log_event(service_name, line, is_error, project_id);
    PumpOutput { url, log }
}

/// The `Starting {name}...` system record emitted as a start begins.
pub fn starting_log(service_name: &str, project_id: &str) -> (e: LogEvent)
    ensures
        e.source@ == "system"@,
        e.level@ == level_of(false),
        e.text@ == log_prefix("system"@, false) + "Starting "@ + service_name@ + "..."@,
        e.project_id@ == project_id@,
{
    let mut body = String::from_str("Starting ");
    body.append(service_name);
    body.append("...");
    system_log_event(body.as_str(), false, project_id)
}

/// The system error record emitted when the spawn itself fails.
pub fn spawn_failed_log(service_name: &str, os_error: &str, project_id: &str) -> (e: LogEvent)
    ensures
        e.source@ == "system"@,
        e.level@ == level_of(true),
        e.text@ == log_prefix("system"@, true) + "Failed to start "@ + service_name@ + ": "@
            + os_error@,
        e.project_id@ == project_id@,
{
    let mut body = String::from_str("Failed to start ");
    body.append(service_name);
    body.append(": ");
    body.append(os_error);
    system_log_event(body.as_str(), true, project_id)
}

/// The system record emitted when a pump sees a service URL.
pub fn url_detected_log(service_name: &str, url: &str, project_id: &str) -> (e: LogEvent)
    ensures
        e.source@ == "system"@,
        e.level@ == level_of(false),
        e.text@ == log_prefix("system"@, false) + service_name@ + " URL detected: "@ + url@,
        e.project_id@ == project_id@,
{
    let mut body = String::from_str(service_name);
    body.append(" URL detected: ");
    body.append(url);
    system_log_event(body.as_str(), false, project_id)
}

/// The system record the liveness poll emits when it sees the process
/// has exited on its own.
pub fn exited_log(service_name: &str, pid_text: &str, status_text: &str, project_id: &str) -> (e:
    LogEvent)
    ensures
        e.source@ == "system"@,
        e.level@ == level_of(false),
        e.text@ == log_prefix("system"@, false) + service_name@ + " stopped (PID: "@ + pid_text@
            + ", status: "@ + status_text@ + ")"@,
        e.project_id@ == project_id@,
{
    let mut body = String::from_str(service_name);
    body.append(" stopped (PID: ");
    body.append(pid_text);
    body.append(", status: ");
    body.append(status_text);
    body.append(")");
    system_log_event(body.as_str(), false, project_id)
}

/// The system error record the liveness poll emits when the liveness
/// check itself fails.
pub fn poll_error_log(service_name: &str, os_error: &str, project_id: &str) -> (e: LogEvent)
    ensures
        e.source@ == "system"@,
        e.level@ == level_of(true),
        e.text@ == log_prefix("system"@, true) + "Error checking "@ + service_name@ + " status: "@
            + os_error@,
        e.project_id@ == project_id@,
{
    let mut body = String::from_str("Error checking ");
    body.append(service_name);
    body.append(" status: ");
    body.append(os_error);
    system_log_event(body.as_str(), true, project_id)
}

/// The `Stopping {name}...` system record emitted as a stop begins.
pub fn stopping_log(service_name: &str, project_id: &str) -> (e: LogEvent)
    ensures
        e.source@ == "system"@,
        e.level@ == level_of(false),
        e.text@ == log_prefix("system"@, false) + "Stopping "@ + service_name@ + "..."@,
        e.project_id@ == project_id@,
{
    let mut body = String::from_str("Stopping ");
    body.append(service_name);
    body.append("...");
    system_log_event(body.as_str(), false, project_id)
}

/// The system record emitted when a stop's kill-and-wait completes.
pub fn killed_log(service_name: &str, status_text: &str, project_id: &str) -> (e: LogEvent)
    ensures
        e.source@ == "system"@,
        e.level@ == level_of(false),
        e.text@ == log_prefix("system"@, false) + service_name@ + " killed successfully (status: "@
            + status_text@ + ")"@,
        e.project_id@ == project_id@,
{
    let mut body = String::from_str(service_name);
    body.append(" killed successfully (status: ");
    body.append(status_text);
    body.append(")");
    system_log_event(body.as_str(), false, project_id)
}

/// The system error record emitted when waiting for the killed
/// process fails.
pub fn wait_error_log(service_name: &str, os_error: &str, project_id: &str) -> (e: LogEvent)
    ensures
        e.source@ == "system"@,
        e.level@ == level_of(true),
        e.text@ == log_prefix("system"@, true) + "Error waiting for "@ + service_name@ + ": "@
            + os_error@,
        e.project_id@ == project_id@,
{
    let mut body = String::from_str("Error waiting for ");
    body.append(service_name);
    body.append(": ");
    body.append(os_error);
    system_log_event(body.as_str(), true, project_id)
}

/// The system error record emitted when signalling the process group
/// fails.
pub fn kill_failed_log(service_name: &str, os_error: &str, project_id: &str) -> (e: LogEvent)
    ensures
        e.source@ == "system"@,
        e.level@ == level_of(true),
        e.text@ == log_prefix("system"@, true) + "Failed to kill "@ + service_name@ + ": "@
            + os_error@,
        e.project_id@ == project_id@,
{
    let mut body = String::from_str("Failed to kill ");
    body.append(service_name);
    body.append(": ");
    body.append(os_error);
    system_log_event(body.as_str(), true, project_id)
}

} // verus!
