//! Edge gateway core: the verified request dispatch pipeline of a proxy that
//! serves pre-built static assets and forwards everything else to an upstream
//! renderer.
//!
//! The crate holds the decision logic: admission control (a global token
//! bucket), content-negotiated static asset delivery, reverse-proxy target
//! construction, route dispatch, and the metrics registry that accounts for
//! every outcome. All I/O (sockets, the filesystem, the wall clock behind
//! [`rate_limiter::TokenBucket::try_admit`]) stays outside; handlers here take
//! the outside world's answers as plain values and are verified for every value.

pub mod assets;
pub mod config;
pub mod countries;
pub mod forward;
pub mod handlers;
pub mod http;
pub mod metrics;
pub mod pipeline;
pub mod rate_limiter;
pub mod router;
pub mod strutil;
pub mod themes;

pub use config::Config;
