//! The ordered dispatch pipeline: admission control strictly precedes
//! routing, and a denial short-circuits everything downstream.
//!
//! The outer server runs one `admit_and_route` per inbound request, performs
//! the I/O the chosen route calls for (a file read, the upstream call), and
//! hands the observed outcome back to the handler functions of this crate.

use vstd::prelude::*;

use crate::http::HttpResponse;
use crate::metrics::{sat_inc, Metrics};
use crate::rate_limiter::TokenBucket;
use crate::router::{route_kind_spec, route_request, Route};
use crate::strutil::{ascii_bytes, str_to_bytes};

verus! {

/// What admission control decided for one request: rejected, with the
/// response to send, or admitted and dispatched to a route.
pub enum Dispatch {
    Rejected(HttpResponse),
    Routed(Route),
}

/// The registry after a denial: exactly one rejection counted, everything
/// else untouched.
pub open spec fn only_rate_limited_bumped(pre: Metrics, post: Metrics) -> bool {
    &&& post.rate_limited_total as int == sat_inc(pre.rate_limited_total as int)
    &&& post.requests_total == pre.requests_total
    &&& post.errors_total == pre.errors_total
    &&& post.frontend_events_total == pre.frontend_events_total
    &&& post.upstream_latency == pre.upstream_latency
}

/// Runs admission control, then routing — in that order. A denied request
/// is answered 429 on the spot, counts one rejection, and reaches no route;
/// an admitted one is dispatched and leaves the metrics untouched.
pub fn admit_and_route(
    limiter: &mut TokenBucket,
    metrics: &mut Metrics,
    now_nanos: u64,
    method: &str,
    path: &str,
) -> (r: Dispatch)
    requires
        old(limiter).wf(),
    ensures
        final(limiter).wf(),
        TokenBucket::admit_transition(
            *old(limiter),
            *final(limiter),
            now_nanos as int,
            old(limiter).would_admit(now_nanos as int),
        ),
        !old(limiter).would_admit(now_nanos as int) ==> (r matches Dispatch::Rejected(resp)
            && resp.status == 429 && resp.body@ == ascii_bytes("Too Many Requests"@)
            && resp.headers_view() == Seq::<(Seq<char>, Seq<char>)>::empty()
            && only_rate_limited_bumped(*old(metrics), *final(metrics))),
        old(limiter).would_admit(now_nanos as int) ==> (r matches Dispatch::Routed(route)
            && route.kind() == route_kind_spec(method@, path@) && (route matches Route::Asset {
            rest,
        } ==> rest@ == path@.subrange(8, path@.len() as int)) && (route
            matches Route::WellKnownFile { file } ==> file@ == path@.subrange(
            1,
            path@.len() as int,
        )) && *final(metrics) == *old(metrics)),
{
    let admitted = limiter.admit_at(now_nanos);
    if !admitted {
        metrics.record_rate_limited();
        let resp = HttpResponse {
            status: 429,
            headers: Vec::new(),
            body: str_to_bytes("Too Many Requests"),
        };
        proof {
            assert(resp.headers_view() =~= Seq::<(Seq<char>, Seq<char>)>::empty());
        }
        Dispatch::Rejected(resp)
    } else {
        Dispatch::Routed(route_request(method, path))
    }
}

/// The answer for a registered path hit with the wrong method.
pub fn method_not_allowed() -> (r: HttpResponse)
    ensures
        r.status == 405,
        r.headers_view() == Seq::<(Seq<char>, Seq<char>)>::empty(),
        r.body@ == Seq::<u8>::empty(),
{
    let r = HttpResponse { status: 405, headers: Vec::new(), body: Vec::new() };
    proof {
        assert(r.headers_view() =~= Seq::<(Seq<char>, Seq<char>)>::empty());
        assert(r.body@ =~= Seq::<u8>::empty());
    }
    r
}

} // verus!
