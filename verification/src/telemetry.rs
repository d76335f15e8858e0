//! Telemetry export: the endpoints metrics and traces go to, and the token
//! counts recorded for each model call. The exporters run in the caller.
use vstd::prelude::*;

use crate::message::Usage;
use crate::text::{chars_of, push_str, string_from_chars, to_owned_string};

verus! {

/// The text without its trailing `/` characters (`trim_end_matches('/')`).
pub open spec fn trim_slashes(s: Seq<char>) -> Seq<char>
    decreases s.len(),
{
    if s.len() > 0 && s.last() == '/' {
        trim_slashes(s.drop_last())
    } else {
        s
    }
}

/// The text without its trailing `/` characters.
pub fn trim_trailing_slashes(s: &str) -> (res: String)
    ensures
        res@ == trim_slashes(s@),
{
    let cs = chars_of(s);
    let mut n = cs.len();
    assert(s@.take(n as int) =~= s@);
    while n > 0 && cs[n - 1] == '/'
        invariant
            n <= cs.len(),
            cs@ == s@,
            trim_slashes(s@) == trim_slashes(s@.take(n as int)),
        decreases n,
    {
        assert(s@.take(n as int).drop_last() =~= s@.take(n - 1));
        n -= 1;
    }
    let mut out: Vec<char> = Vec::new();
    for i in 0..n
        invariant
            n <= cs.len(),
            cs@ == s@,
            out@ == s@.take(i as int),
    {
        out.push(cs[i]);
        assert(s@.take(i + 1) =~= s@.take(i as int).push(s@[i as int]));
    }
    assert(trim_slashes(s@.take(n as int)) == s@.take(n as int));
    string_from_chars(&out)
}

/// Where metrics and traces are exported for an OTLP endpoint.
pub struct TelemetryEndpoints {
    pub metrics: String,
    pub traces: String,
}

/// The metrics and traces endpoints under an OTLP endpoint:
/// `<endpoint>/v1/metrics` and `<endpoint>/v1/traces`, without doubled slashes.
pub fn init_telemetry(otlp_endpoint: &str) -> (res: TelemetryEndpoints)
    ensures
        res.metrics@ == trim_slashes(otlp_endpoint@) + "/v1/metrics"@,
        res.traces@ == trim_slashes(otlp_endpoint@) + "/v1/traces"@,
{
    let base = trim_trailing_slashes(otlp_endpoint);
    let mut metrics = to_owned_string(base.as_str());
    push_str(&mut metrics, "/v1/metrics");
    let mut traces = to_owned_string(base.as_str());
    push_str(&mut traces, "/v1/traces");
    TelemetryEndpoints { metrics, traces }
}

/// The token counts recorded for a model call: each kind with a count
/// above zero, labelled `prompt`, `completion` and `total`.
pub open spec fn token_records(u: Usage) -> Seq<(Seq<char>, u64)> {
    (if u.prompt_tokens > 0 { seq![("prompt"@, u.prompt_tokens as u64)] } else { Seq::empty() })
        + (if u.completion_tokens > 0 { seq![("completion"@, u.completion_tokens as u64)] } else { Seq::empty() })
        + (if u.total_tokens > 0 { seq![("total"@, u.total_tokens as u64)] } else { Seq::empty() })
}

/// The token counts to record for a model call, each with its kind.
pub fn record_token_usage(usage: &Usage) -> (res: Vec<(&'static str, u64)>)
    ensures
        res@.map_values(|r: (&'static str, u64)| (r.0@, r.1)) == token_records(*usage),
{
    let mut out: Vec<(&'static str, u64)> = Vec::new();
    if usage.prompt_tokens > 0 {
        out.push(("prompt", usage.prompt_tokens as u64));
    }
    if usage.completion_tokens > 0 {
        out.push(("completion", usage.completion_tokens as u64));
    }
    if usage.total_tokens > 0 {
        out.push(("total", usage.total_tokens as u64));
    }
    assert(out@.map_values(|r: (&'static str, u64)| (r.0@, r.1)) =~= token_records(*usage));
    out
}

} // verus!
