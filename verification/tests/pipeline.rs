use proxy::forward::{apply_marker, path_and_query, proxy_fallback, proxy_target, record_proxy_request, UpstreamError};
use proxy::handlers::{api_events, health_check, metrics_handler, Event};
use proxy::http::HttpResponse;
use proxy::metrics::Metrics;
use proxy::pipeline::{admit_and_route, method_not_allowed, Dispatch};
use proxy::rate_limiter::TokenBucket;
use proxy::router::Route;

fn header<'a>(resp: &'a HttpResponse, name: &str) -> Option<&'a str> {
    resp.headers
        .iter()
        .find(|(n, _)| n == name)
        .map(|(_, v)| v.as_str())
}

fn body_text(resp: &HttpResponse) -> String {
    String::from_utf8(resp.body.clone()).unwrap()
}

#[test]
fn bucket_exhausts_then_refills() {
    // 2 tokens per second, burst of 3, starting full at t = 0.
    let mut b = TokenBucket::new(2, 3, 0);
    assert!(b.admit_at(0));
    assert!(b.admit_at(0));
    assert!(b.admit_at(0));
    assert!(!b.admit_at(0));
    // 499_999_999 ns at 2 tokens/s regenerates just under one token.
    assert!(!b.admit_at(499_999_999));
    // One more nanosecond completes the token.
    assert!(b.admit_at(500_000_000));
    assert!(!b.admit_at(500_000_000));
}

#[test]
fn bucket_never_exceeds_burst() {
    let mut b = TokenBucket::new(1, 2, 0);
    // An enormous idle period refills to the burst size only.
    assert!(b.admit_at(1_000_000_000_000));
    assert!(b.admit_at(1_000_000_000_000));
    assert!(!b.admit_at(1_000_000_000_000));
}

#[test]
fn bucket_tolerates_clock_going_backwards() {
    let mut b = TokenBucket::new(1, 1, 1_000_000_000);
    assert!(b.admit_at(500_000_000));
    assert!(!b.admit_at(400_000_000));
}

#[test]
fn proxy_target_preserves_path_and_query() {
    let pq = path_and_query("/foo/bar", Some("x=1"));
    assert_eq!(pq, "/foo/bar?x=1");
    let target = proxy_target("http://127.0.0.1:8081", &pq);
    assert_eq!(target, "http://127.0.0.1:8081/foo/bar?x=1");
    let bare = path_and_query("/foo/bar", None);
    assert_eq!(bare, "/foo/bar");
}

#[test]
fn marker_header_is_set_and_replaces_previous() {
    let resp = HttpResponse {
        status: 200,
        headers: vec![
            ("content-type".to_string(), "text/html".to_string()),
            ("x-proxy".to_string(), "old".to_string()),
        ],
        body: b"hi".to_vec(),
    };
    let out = apply_marker(resp);
    assert_eq!(out.status, 200);
    assert_eq!(body_text(&out), "hi");
    assert_eq!(header(&out, "content-type"), Some("text/html"));
    let markers: Vec<_> = out.headers.iter().filter(|(n, _)| n == "x-proxy").collect();
    assert_eq!(markers.len(), 1);
    assert_eq!(header(&out, "x-proxy"), Some("rust-proxy"));
}

#[test]
fn end_to_end_fallback_records_metrics() {
    let mut metrics = Metrics::new();
    let mut limiter = TokenBucket::new(10, 10, 0);

    for _ in 0..2 {
        let dispatch = admit_and_route(&mut limiter, &mut metrics, 0, "GET", "/test");
        let route = match dispatch {
            Dispatch::Routed(route) => route,
            Dispatch::Rejected(_) => panic!("request should be admitted"),
        };
        assert!(matches!(route, Route::Fallback));
        record_proxy_request(&mut metrics, "/test");
        let upstream = HttpResponse {
            status: 200,
            headers: vec![("content-type".to_string(), "text/plain".to_string())],
            body: b"UPSTREAM OK".to_vec(),
        };
        let resp = proxy_fallback(Ok(upstream), 1_000_000, &mut metrics);
        assert_eq!(resp.status, 200);
        assert_eq!(body_text(&resp), "UPSTREAM OK");
        assert_eq!(header(&resp, "x-proxy"), Some("rust-proxy"));
    }

    let scrape = metrics_handler(&metrics);
    assert_eq!(scrape.status, 200);
    let text = body_text(&scrape);
    assert!(text.contains("proxy_requests_total{path=\"/test\"} 2"));
    assert!(text.contains("proxy_upstream_latency_seconds_count 2"));
    assert!(text.contains("proxy_upstream_latency_seconds_sum 0.002000000"));
}

#[test]
fn upstream_failure_yields_500_and_error_counter() {
    let mut metrics = Metrics::new();
    let resp = proxy_fallback(Err(UpstreamError::Unreachable), 5_000, &mut metrics);
    assert_eq!(resp.status, 500);
    assert_eq!(body_text(&resp), "Internal Server Error");
    let text = body_text(&metrics_handler(&metrics));
    assert!(text.contains("proxy_errors_total{error_type=\"upstream_error\"} 1"));
    assert!(text.contains("proxy_upstream_latency_seconds_count 1"));
}

#[test]
fn rejected_request_is_429_and_counted() {
    let mut metrics = Metrics::new();
    let mut limiter = TokenBucket::new(1, 1, 0);
    assert!(limiter.admit_at(0));
    let dispatch = admit_and_route(&mut limiter, &mut metrics, 0, "GET", "/test");
    match dispatch {
        Dispatch::Rejected(resp) => {
            assert_eq!(resp.status, 429);
            assert_eq!(body_text(&resp), "Too Many Requests");
        },
        Dispatch::Routed(_) => panic!("request should be rejected"),
    }
    assert_eq!(metrics.rate_limited_total, 1);
    let text = body_text(&metrics_handler(&metrics));
    assert!(text.contains("proxy_rate_limited_total 1"));
}

#[test]
fn health_check_is_fixed_json() {
    let resp = health_check();
    assert_eq!(resp.status, 200);
    assert_eq!(body_text(&resp), "{\"isHealthy\":true}");
    assert_eq!(header(&resp, "Content-Type"), Some("application/json"));
}

#[test]
fn api_events_counts_by_route() {
    let mut metrics = Metrics::new();
    let resp = api_events(&mut metrics, Event { route: "/home".to_string() });
    assert_eq!(resp.status, 200);
    assert_eq!(body_text(&resp), "Event received");
    let resp2 = api_events(&mut metrics, Event { route: "/home".to_string() });
    assert_eq!(resp2.status, 200);
    let text = body_text(&metrics_handler(&metrics));
    assert!(text.contains("frontend_events_total{route=\"/home\"} 2"));
}

#[test]
fn zero_burst_bucket_admits_nothing() {
    let mut b = TokenBucket::new(1_000_000, 0, 0);
    assert!(!b.admit_at(0));
    assert!(!b.admit_at(1_000_000_000_000));
}

#[test]
fn method_not_allowed_is_405() {
    let resp = method_not_allowed();
    assert_eq!(resp.status, 405);
    assert!(resp.body.is_empty());
    assert!(resp.headers.is_empty());
}
