//! CloudWatch Logs groups, streams and events as the browser shows them.
use vstd::prelude::*;
use crate::aws::errors::{access_denied, credentials_problem, failed_text, is_access_denied, is_credentials_problem, access_denied_text};
use crate::text::{
    copy_string, int_text, int_to_string, owned, push_str, seq_contains, str_contains, str_eq,
};
use crate::units::{human_size, size_text};

verus! {

/// A row of the log group list.
#[derive(Debug, Clone)]
pub struct LogGroupInfo {
    pub name: String,
    pub arn: String,
    pub stored_bytes: i64,
    pub retention_days: Option<i32>,
    pub created: String,
}

/// A row of a group's stream list.
#[derive(Debug, Clone)]
pub struct LogStreamInfo {
    pub name: String,
    pub last_event: Option<String>,
    pub last_ingestion: Option<String>,
    pub created: String,
}

/// One log event.
#[derive(Debug, Clone)]
pub struct LogEvent {
    pub timestamp: i64,
    pub message: String,
}

/// A page of log events and the token of the next page.
pub struct LogEventsResult {
    pub events: Vec<LogEvent>,
    pub next_token: Option<String>,
}

/// The answer to a poll of an Insights query: its status and its rows, each
/// row the fields the service returned, in its order.
#[derive(Debug, Clone)]
pub struct InsightsResult {
    pub rows: Vec<Vec<(String, String)>>,
    pub status: String,
}

/// The message shown when a CloudWatch Logs call fails: as for the other
/// services, but a service error while filtering suggests a shorter range or
/// Insights.
pub open spec fn cw_error_text(op: Seq<char>, msg: Seq<char>) -> Seq<char> {
    if credentials_problem(msg) {
        "AWS credentials expired or missing (r to retry)"@
    } else if access_denied(msg) {
        "Access denied for "@ + op + ". Check your IAM permissions."@
    } else if seq_contains(msg, "service error"@) && seq_contains(op, "filter"@) {
        "Failed to "@ + op + ": "@ + msg
            + ". Try a shorter time range or use Insights (i) for large searches."@
    } else {
        "Failed to "@ + op + ": "@ + msg
    }
}

/// The message shown when a CloudWatch Logs call fails.
pub fn format_aws_error(op: &str, msg: &str) -> (r: String)
    ensures
        r@ == cw_error_text(op@, msg@),
{
    if is_credentials_problem(msg) {
        owned("AWS credentials expired or missing (r to retry)")
    } else if is_access_denied(msg) {
        access_denied_text(op)
    } else if str_contains(msg, "service error") && str_contains(op, "filter") {
        let mut r = failed_text(op, msg);
        push_str(&mut r, ". Try a shorter time range or use Insights (i) for large searches.");
        r
    } else {
        failed_text(op, msg)
    }
}

/// The stored size of a group for people.
pub fn format_stored_bytes(bytes: i64) -> (r: String)
    ensures
        r@ == size_text(bytes as int),
{
    human_size(bytes)
}

/// What chrono prints for the UTC time `secs` seconds after the epoch with
/// the pattern `%Y-%m-%d %H:%M:%S` (none when chrono has no such time).
pub uninterp spec fn utc_seconds_text(secs: i64) -> Option<Seq<char>>;

/// `chrono::DateTime::from_timestamp(secs, 0)` printed with
/// `%Y-%m-%d %H:%M:%S`. The contract only names the result: the calendar
/// arithmetic and the range chrono accepts are left to chrono.
#[verifier::external_body]
fn utc_text(secs: i64) -> (r: Option<String>)
    ensures
        match r {
            Some(s) => utc_seconds_text(secs) == Some(s@),
            None => utc_seconds_text(secs) is None,
        },
{
    chrono::DateTime::from_timestamp(secs, 0).map(|d| d.format("%Y-%m-%d %H:%M:%S").to_string())
}

/// `ms / 1000`, rounded toward zero as Rust divides.
pub open spec fn millis_to_secs(ms: i64) -> i64 {
    if ms >= 0 {
        (ms / 1000) as i64
    } else {
        (-((-ms) / 1000)) as i64
    }
}

/// A time in milliseconds since the epoch as `YYYY-MM-DD HH:MM:SS` (UTC),
/// or the plain number when chrono has no such time.
pub open spec fn epoch_ms_text(ms: i64) -> Seq<char> {
    match utc_seconds_text(millis_to_secs(ms)) {
        Some(t) => t,
        None => int_text(ms as int),
    }
}

/// Formats a time in milliseconds since the epoch.
pub fn format_epoch_ms(ms: i64) -> (r: String)
    ensures
        r@ == epoch_ms_text(ms),
{
    let secs = ms / 1000;
    assert(secs == millis_to_secs(ms));
    match utc_text(secs) {
        Some(t) => t,
        None => int_to_string(ms),
    }
}

/// Listing streams stops when there is no further page or 200 streams are
/// in hand.
pub fn stream_listing_done(has_next_page: bool, count: usize) -> (r: bool)
    ensures
        r == (!has_next_page || count >= 200),
{
    !has_next_page || count >= 200
}

/// What chrono gives for `text` read as a date and time in the pattern
/// `format`, taken as UTC, in milliseconds since the epoch (none when the
/// text does not match).
pub uninterp spec fn naive_utc_millis(text: Seq<char>, format: Seq<char>) -> Option<i64>;

/// `chrono::NaiveDateTime::parse_from_str(text, format)` taken as UTC, in
/// milliseconds since the epoch. The contract only names the result: the
/// pattern language is chrono's.
#[verifier::external_body]
fn parse_utc_millis(text: &str, format: &str) -> (r: Option<i64>)
    ensures
        r == naive_utc_millis(text@, format@),
{
    chrono::NaiveDateTime::parse_from_str(text, format).ok().map(|dt| dt.and_utc().timestamp_millis())
}

/// The time of an Insights row in milliseconds: the text read with
/// fractional seconds, else without, else 0.
pub open spec fn insights_timestamp(text: Seq<char>) -> i64 {
    match naive_utc_millis(text, "%Y-%m-%d %H:%M:%S%.f"@) {
        Some(ms) => ms,
        None => match naive_utc_millis(text, "%Y-%m-%d %H:%M:%S"@) {
            Some(ms) => ms,
            None => 0,
        },
    }
}

/// Reads the `@timestamp` text of an Insights row (e.g.
/// `2026-03-15 21:48:30.486`).
pub fn parse_insights_timestamp(ts: &str) -> (r: i64)
    ensures
        r == insights_timestamp(ts@),
{
    if let Some(ms) = parse_utc_millis(ts, "%Y-%m-%d %H:%M:%S%.f") {
        return ms;
    }
    if let Some(ms) = parse_utc_millis(ts, "%Y-%m-%d %H:%M:%S") {
        return ms;
    }
    0
}

/// The value of the field `name` in a row: the last pair with that name
/// (later pairs replace earlier ones), or none.
pub open spec fn field_value(row: Seq<(Seq<char>, Seq<char>)>, name: Seq<char>) -> Option<Seq<char>>
    decreases row.len(),
{
    if row.len() == 0 {
        None
    } else if row.last().0 == name {
        Some(row.last().1)
    } else {
        field_value(row.drop_last(), name)
    }
}

/// The texts of a row.
pub open spec fn row_texts(row: Seq<(String, String)>) -> Seq<(Seq<char>, Seq<char>)> {
    row.map_values(|p: (String, String)| (p.0@, p.1@))
}

/// Looks up a field of a row (see `field_value`).
pub fn row_field(row: &Vec<(String, String)>, name: &str) -> (r: Option<String>)
    ensures
        match r {
            Some(s) => field_value(row_texts(row@), name@) == Some(s@),
            None => field_value(row_texts(row@), name@) is None,
        },
{
    let n = row.len();
    let mut i: usize = n;
    proof {
        assert(row_texts(row@).take(n as int) =~= row_texts(row@));
    }
    while i > 0
        invariant
            n == row@.len(),
            0 <= i <= n,
            field_value(row_texts(row@), name@) == field_value(row_texts(row@).take(i as int), name@),
        decreases i,
    {
        proof {
            assert(row_texts(row@).take(i as int).drop_last() =~= row_texts(row@).take(i - 1));
        }
        if str_eq(row[i - 1].0.as_str(), name) {
            return Some(copy_string(&row[i - 1].1));
        }
        i = i - 1;
    }
    None
}

/// The event an Insights row stands for: its `@timestamp` read as a time
/// (0 when missing or unreadable) and its `@message` (empty when missing).
pub open spec fn row_event_ok(e: LogEvent, row: Seq<(Seq<char>, Seq<char>)>) -> bool {
    let ts = match field_value(row, "@timestamp"@) {
        Some(t) => t,
        None => Seq::empty(),
    };
    let msg = match field_value(row, "@message"@) {
        Some(m) => m,
        None => Seq::empty(),
    };
    e.timestamp == insights_timestamp(ts) && e.message@ == msg
}

/// Turns the rows of a complete Insights query into log events, one per row
/// in order (see `row_event_ok`).
pub fn insights_events(rows: &Vec<Vec<(String, String)>>) -> (r: Vec<LogEvent>)
    ensures
        r@.len() == rows@.len(),
        forall|i: int| 0 <= i < rows@.len() ==> row_event_ok(#[trigger] r@[i], row_texts(rows@[i]@)),
{
    let mut r: Vec<LogEvent> = Vec::new();
    let n = rows.len();
    let mut i: usize = 0;
    while i < n
        invariant
            n == rows@.len(),
            0 <= i <= n,
            r@.len() == i,
            forall|t: int| 0 <= t < i ==> row_event_ok(#[trigger] r@[t], row_texts(rows@[t]@)),
        decreases n - i,
    {
        let ts = match row_field(&rows[i], "@timestamp") {
            Some(t) => t,
            None => String::new(),
        };
        let msg = match row_field(&rows[i], "@message") {
            Some(m) => m,
            None => String::new(),
        };
        let timestamp = parse_insights_timestamp(ts.as_str());
        r.push(LogEvent { timestamp, message: msg });
        i = i + 1;
    }
    r
}

} // verus!
