//! Route dispatch: maps a request's method and path to exactly one handler.
//!
//! The gateway is static-first, proxy by default: a fixed set of exact
//! routes, the asset prefix, a few well-known files served from the asset
//! root — and everything else falls through to the reverse proxy.

use vstd::prelude::*;

use crate::strutil::{is_prefix_of, str_eq, str_starts_with};

verus! {

/// The handler a request is dispatched to.
pub enum Route {
    /// GET /isHealthy
    Health,
    /// GET /api/metrics
    MetricsEndpoint,
    /// POST /api/events
    ApiEvents,
    /// GET /api/country
    ApiCountry,
    /// GET /api/themes
    ApiThemes,
    /// GET /assets/{rest}
    Asset { rest: String },
    /// A fixed well-known file served directly from the asset root.
    WellKnownFile { file: String },
    /// Everything else: the reverse proxy.
    Fallback,
    /// A registered path hit with the wrong method.
    MethodNotAllowed,
}

/// A dispatch decision without its payload.
#[derive(Clone, Copy, Debug, PartialEq, Eq, Structural)]
pub enum RouteKind {
    Health,
    MetricsEndpoint,
    ApiEvents,
    ApiCountry,
    ApiThemes,
    Asset,
    WellKnownFile,
    Fallback,
    MethodNotAllowed,
}

impl Route {
    /// The decision this route represents, without its payload.
    pub open spec fn kind(self) -> RouteKind {
        match self {
            Route::Health => RouteKind::Health,
            Route::MetricsEndpoint => RouteKind::MetricsEndpoint,
            Route::ApiEvents => RouteKind::ApiEvents,
            Route::ApiCountry => RouteKind::ApiCountry,
            Route::ApiThemes => RouteKind::ApiThemes,
            Route::Asset { .. } => RouteKind::Asset,
            Route::WellKnownFile { .. } => RouteKind::WellKnownFile,
            Route::Fallback => RouteKind::Fallback,
            Route::MethodNotAllowed => RouteKind::MethodNotAllowed,
        }
    }
}

/// The fixed well-known files served directly from the asset root.
pub open spec fn is_well_known(path: Seq<char>) -> bool {
    path == "/favicon.ico"@ || path == "/robots.txt"@ || path == "/sw.js"@
        || path == "/manifest.webmanifest"@
}

/// Some registered route (other than the fallback) matches the path.
pub open spec fn is_registered_path(path: Seq<char>) -> bool {
    path == "/isHealthy"@ || path == "/api/metrics"@ || path == "/api/events"@ || path
        == "/api/country"@ || path == "/api/themes"@ || is_prefix_of("/assets/"@, path)
        || is_well_known(path)
}

/// The dispatch decision for one request: registered paths in order, each
/// guarded by its method; every unregistered path falls through to the
/// reverse proxy, whatever its method.
pub open spec fn route_kind_spec(method: Seq<char>, path: Seq<char>) -> RouteKind {
    if path == "/isHealthy"@ {
        if method == "GET"@ {
            RouteKind::Health
        } else {
            RouteKind::MethodNotAllowed
        }
    } else if path == "/api/metrics"@ {
        if method == "GET"@ {
            RouteKind::MetricsEndpoint
        } else {
            RouteKind::MethodNotAllowed
        }
    } else if path == "/api/events"@ {
        if method == "POST"@ {
            RouteKind::ApiEvents
        } else {
            RouteKind::MethodNotAllowed
        }
    } else if path == "/api/country"@ {
        if method == "GET"@ {
            RouteKind::ApiCountry
        } else {
            RouteKind::MethodNotAllowed
        }
    } else if path == "/api/themes"@ {
        if method == "GET"@ {
            RouteKind::ApiThemes
        } else {
            RouteKind::MethodNotAllowed
        }
    } else if is_prefix_of("/assets/"@, path) {
        if method == "GET"@ {
            RouteKind::Asset
        } else {
            RouteKind::MethodNotAllowed
        }
    } else if is_well_known(path) {
        if method == "GET"@ {
            RouteKind::WellKnownFile
        } else {
            RouteKind::MethodNotAllowed
        }
    } else {
        RouteKind::Fallback
    }
}

/// Law: the gateway is proxy-by-default — a path no route claims is
/// dispatched to the reverse proxy, whatever the method.
pub proof fn lemma_unregistered_falls_through(method: Seq<char>, path: Seq<char>)
    requires
        !is_registered_path(path),
    ensures
        route_kind_spec(method, path) == RouteKind::Fallback,
{
}

/// Dispatches one request.
pub fn route_request(method: &str, path: &str) -> (r: Route)
    ensures
        r.kind() == route_kind_spec(method@, path@),
        r matches Route::Asset { rest } ==> rest@ == path@.subrange(8, path@.len() as int),
        r matches Route::WellKnownFile { file } ==> file@ == path@.subrange(
            1,
            path@.len() as int,
        ),
{
    let get = str_eq(method, "GET");
    if str_eq(path, "/isHealthy") {
        if get {
            Route::Health
        } else {
            Route::MethodNotAllowed
        }
    } else if str_eq(path, "/api/metrics") {
        if get {
            Route::MetricsEndpoint
        } else {
            Route::MethodNotAllowed
        }
    } else if str_eq(path, "/api/events") {
        if str_eq(method, "POST") {
            Route::ApiEvents
        } else {
            Route::MethodNotAllowed
        }
    } else if str_eq(path, "/api/country") {
        if get {
            Route::ApiCountry
        } else {
            Route::MethodNotAllowed
        }
    } else if str_eq(path, "/api/themes") {
        if get {
            Route::ApiThemes
        } else {
            Route::MethodNotAllowed
        }
    } else if str_starts_with(path, "/assets/") {
        if get {
            let len = path.unicode_len();
            proof {
                reveal_strlit("/assets/");
            }
            let rest = path.substring_char(8, len);
            Route::Asset { rest: String::from_str(rest) }
        } else {
            Route::MethodNotAllowed
        }
    } else if str_eq(path, "/favicon.ico") || str_eq(path, "/robots.txt") || str_eq(path, "/sw.js")
        || str_eq(path, "/manifest.webmanifest") {
        if get {
            let len = path.unicode_len();
            proof {
                reveal_strlit("/favicon.ico");
                reveal_strlit("/robots.txt");
                reveal_strlit("/sw.js");
                reveal_strlit("/manifest.webmanifest");
            }
            let file = path.substring_char(1, len);
            Route::WellKnownFile { file: String::from_str(file) }
        } else {
            Route::MethodNotAllowed
        }
    } else {
        Route::Fallback
    }
}

} // verus!
