//! The small fixed handlers: health check, metrics scrape, and frontend
//! event counting.

use vstd::prelude::*;

use crate::http::{push_header, HttpResponse};
use crate::metrics::{counter_bump, render_spec, Metrics};
use crate::strutil::{ascii_bytes, str_to_bytes};

verus! {

/// One frontend navigation event posted by the client.
#[derive(Debug)]
pub struct Event {
    pub route: String,
}

/// Always healthy: a fixed JSON body with status 200.
pub fn health_check() -> (r: HttpResponse)
    ensures
        r.status == 200,
        r.headers_view() == seq![("Content-Type"@, "application/json"@)],
        r.body@ == ascii_bytes("{\"isHealthy\":true}"@),
{
    let mut headers: Vec<(String, String)> = Vec::new();
    push_header(&mut headers, "Content-Type", String::from_str("application/json"));
    proof {
        assert(headers.deep_view() =~= seq![("Content-Type"@, "application/json"@)]);
    }
    HttpResponse { status: 200, headers, body: str_to_bytes("{\"isHealthy\":true}") }
}

/// Renders the registry for scrape: the exposition text as the body.
pub fn metrics_handler(metrics: &Metrics) -> (r: HttpResponse)
    ensures
        r.status == 200,
        r.headers_view() == seq![("Content-Type"@, "text/plain; charset=utf-8"@)],
        r.body@ == ascii_bytes(render_spec(*metrics)),
{
    let mut headers: Vec<(String, String)> = Vec::new();
    push_header(&mut headers, "Content-Type", String::from_str("text/plain; charset=utf-8"));
    proof {
        assert(headers.deep_view() =~= seq![("Content-Type"@, "text/plain; charset=utf-8"@)]);
    }
    let text = metrics.render();
    HttpResponse { status: 200, headers, body: str_to_bytes(text.as_str()) }
}

/// Counts one frontend event under its route label and acknowledges it.
pub fn api_events(metrics: &mut Metrics, payload: Event) -> (r: HttpResponse)
    ensures
        final(metrics).frontend_events_total.entries_view() == counter_bump(
            old(metrics).frontend_events_total.entries_view(),
            payload.route@,
        ),
        final(metrics).requests_total == old(metrics).requests_total,
        final(metrics).errors_total == old(metrics).errors_total,
        final(metrics).upstream_latency == old(metrics).upstream_latency,
        final(metrics).rate_limited_total == old(metrics).rate_limited_total,
        r.status == 200,
        r.headers_view() == Seq::<(Seq<char>, Seq<char>)>::empty(),
        r.body@ == ascii_bytes("Event received"@),
{
    metrics.frontend_events_total.increment(payload.route.as_str());
    let r = HttpResponse { status: 200, headers: Vec::new(), body: str_to_bytes("Event received") };
    proof {
        assert(r.headers_view() =~= Seq::<(Seq<char>, Seq<char>)>::empty());
    }
    r
}

/// Counts one frontend event without a route label (recorded under the
/// empty label value) and acknowledges it.
pub fn handle_frontend_events(metrics: &mut Metrics) -> (r: HttpResponse)
    ensures
        final(metrics).frontend_events_total.entries_view() == counter_bump(
            old(metrics).frontend_events_total.entries_view(),
            Seq::<char>::empty(),
        ),
        final(metrics).requests_total == old(metrics).requests_total,
        final(metrics).errors_total == old(metrics).errors_total,
        final(metrics).upstream_latency == old(metrics).upstream_latency,
        final(metrics).rate_limited_total == old(metrics).rate_limited_total,
        r.status == 200,
        r.body@ == ascii_bytes("Received"@),
{
    metrics.frontend_events_total.increment("");
    proof {
        reveal_strlit("");
        assert(""@ =~= Seq::<char>::empty());
    }
    HttpResponse { status: 200, headers: Vec::new(), body: str_to_bytes("Received") }
}

} // verus!
