//! The JSON documents that persisted responses are written as.

use vstd::prelude::*;
use serde_json::Value;

verus! {

/// The response of a successful request, as captured for persisting.
pub struct ResponseRecord {
    /// Protocol version, such as `HTTP/1.1`.
    pub version: String,
    /// Numeric status code.
    pub status: u16,
    /// Header names and values, in the order received.
    pub headers: Vec<(String, String)>,
    /// The body, decoded as text.
    pub body: String,
}

/// The views of a list of string pairs.
pub open spec fn pairs_view(v: Seq<(String, String)>) -> Seq<(Seq<char>, Seq<char>)> {
    v.map_values(|p: (String, String)| (p.0@, p.1@))
}

/// The pretty-printed JSON text of a success record.
pub uninterp spec fn success_json(
    version: Seq<char>,
    status: u16,
    headers: Seq<(Seq<char>, Seq<char>)>,
    body: Seq<char>,
    secs: u64,
    nanos: u32,
) -> Seq<char>;

/// The pretty-printed JSON text of a failure record.
pub uninterp spec fn failure_json(error: Seq<char>) -> Seq<char>;

/// Relies on `serde_json::to_string_pretty` of an object with keys
/// `version`, `status`, `headers` (an object), `body` and `duration`
/// (`secs`, `nanos`): the text depends on these values alone.
#[verifier::external_body]
fn success_json_text(
    version: &str,
    status: u16,
    headers: &Vec<(String, String)>,
    body: &str,
    secs: u64,
    nanos: u32,
) -> (r: String)
    ensures
        r@ == success_json(version@, status, pairs_view(headers@), body@, secs, nanos),
{
    let h: serde_json::Map<String, Value> = headers.iter().map(|(k, v)| (k.clone(), v.as_str().into())).collect();
    let d = serde_json::Map::from_iter([("secs".into(), secs.into()), ("nanos".into(), nanos.into())]);
    let o = serde_json::Map::from_iter([
        ("version".into(), version.into()),
        ("status".into(), status.into()),
        ("headers".into(), Value::Object(h)),
        ("body".into(), body.into()),
        ("duration".into(), Value::Object(d)),
    ]);
    serde_json::to_string_pretty(&Value::Object(o)).unwrap_or_default()
}

/// Relies on `serde_json::to_string_pretty` of an object whose one key
/// `error` holds the message: the text depends on the message alone.
#[verifier::external_body]
fn failure_json_text(error: &str) -> (r: String)
    ensures
        r@ == failure_json(error@),
{
    let o = serde_json::Map::from_iter([("error".to_string(), Value::from(error))]);
    serde_json::to_string_pretty(&Value::Object(o)).unwrap_or_default()
}

/// Nanoseconds in a second.
pub const NANOS_PER_SEC: u64 = 1_000_000_000;

/// The document for a successful request that took `duration` nanoseconds;
/// the duration is written as whole seconds and remaining nanoseconds.
pub fn success_record(record: &ResponseRecord, duration: u64) -> (r: String)
    ensures
        r@ == success_json(
            record.version@,
            record.status,
            pairs_view(record.headers@),
            record.body@,
            duration / NANOS_PER_SEC,
            (duration % NANOS_PER_SEC) as u32,
        ),
{
    success_json_text(
        record.version.as_str(),
        record.status,
        &record.headers,
        record.body.as_str(),
        duration / NANOS_PER_SEC,
        (duration % NANOS_PER_SEC) as u32,
    )
}

/// The document for a failed request: its error message.
pub fn failure_record(error: &str) -> (r: String)
    ensures
        r@ == failure_json(error@),
{
    failure_json_text(error)
}

} // verus!
