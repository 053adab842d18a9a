//! Immutable gateway settings, validated once before the pipeline starts.
//!
//! Reading and deserializing the settings file is I/O and happens outside the
//! library; validation takes the two filesystem facts it needs (whether the
//! asset directory exists and whether it is a directory) as plain values.

use vstd::prelude::*;

use crate::strutil::{dec_rep, u64_to_string};

verus! {

/// Application configuration.
#[derive(Clone, Debug)]
pub struct Config {
    pub country_api_url: String,
    pub proxy_port: u16,
    pub upstream_host: String,
    pub upstream_port: u16,
    pub asset_dir: String,
    pub rate_limit_per_second: u64,
    pub rate_limit_burst_size: u32,
}

/// Why a configuration was rejected at startup. Each variant is fatal: the
/// process must abort before binding a listener.
#[derive(Clone, Copy, Debug, PartialEq, Eq, Structural)]
pub enum ConfigError {
    AssetDirMissing,
    AssetDirNotDirectory,
    ProxyPortZero,
    UpstreamPortZero,
    UpstreamHostEmpty,
    CountryApiUrlEmpty,
}

pub fn default_proxy_port() -> (r: u16)
    ensures
        r == 3000,
{
    3000
}

pub fn default_upstream_host() -> (r: String)
    ensures
        r@ == "127.0.0.1"@,
{
    String::from_str("127.0.0.1")
}

pub fn default_upstream_port() -> (r: u16)
    ensures
        r == 8081,
{
    8081
}

pub fn default_asset_dir() -> (r: String)
    ensures
        r@ == "dist/client"@,
{
    String::from_str("dist/client")
}

pub fn default_rate_limit_per_second() -> (r: u64)
    ensures
        r == 2,
{
    2
}

pub fn default_rate_limit_burst_size() -> (r: u32)
    ensures
        r == 10,
{
    10
}

/// The outcome `Config::validate` owes: the checks in order, first failure
/// wins, `Ok` exactly when every invariant of the settings holds.
pub open spec fn validate_spec(c: Config, asset_dir_exists: bool, asset_dir_is_dir: bool) -> Result<
    (),
    ConfigError,
> {
    if !asset_dir_exists {
        Err(ConfigError::AssetDirMissing)
    } else if !asset_dir_is_dir {
        Err(ConfigError::AssetDirNotDirectory)
    } else if c.proxy_port == 0 {
        Err(ConfigError::ProxyPortZero)
    } else if c.upstream_port == 0 {
        Err(ConfigError::UpstreamPortZero)
    } else if c.upstream_host@.len() == 0 {
        Err(ConfigError::UpstreamHostEmpty)
    } else if c.country_api_url@.len() == 0 {
        Err(ConfigError::CountryApiUrlEmpty)
    } else {
        Ok(())
    }
}

/// The upstream base URL derived from host and port.
pub open spec fn upstream_base_spec(host: Seq<char>, port: int) -> Seq<char> {
    "http://"@ + host + ":"@ + dec_rep(port)
}

impl Config {
    /// Validates the settings. The caller supplies whether the asset
    /// directory exists on disk and whether it is a directory; everything
    /// else is checked from the values themselves.
    pub fn validate(&self, asset_dir_exists: bool, asset_dir_is_dir: bool) -> (r: Result<
        (),
        ConfigError,
    >)
        ensures
            r == validate_spec(*self, asset_dir_exists, asset_dir_is_dir),
            r is Ok <==> (asset_dir_exists && asset_dir_is_dir && self.proxy_port != 0
                && self.upstream_port != 0 && self.upstream_host@.len() != 0
                && self.country_api_url@.len() != 0),
    {
        if !asset_dir_exists {
            Err(ConfigError::AssetDirMissing)
        } else if !asset_dir_is_dir {
            Err(ConfigError::AssetDirNotDirectory)
        } else if self.proxy_port == 0 {
            Err(ConfigError::ProxyPortZero)
        } else if self.upstream_port == 0 {
            Err(ConfigError::UpstreamPortZero)
        } else if self.upstream_host.as_str().unicode_len() == 0 {
            Err(ConfigError::UpstreamHostEmpty)
        } else if self.country_api_url.as_str().unicode_len() == 0 {
            Err(ConfigError::CountryApiUrlEmpty)
        } else {
            Ok(())
        }
    }

    /// The full upstream base URL, `http://{host}:{port}`.
    pub fn upstream_base(&self) -> (r: String)
        ensures
            r@ == upstream_base_spec(self.upstream_host@, self.upstream_port as int),
    {
        let mut s = String::from_str("http://");
        s.append(self.upstream_host.as_str());
        s.append(":");
        let port = u64_to_string(self.upstream_port as u64);
        s.append(port.as_str());
        proof {
            assert(s@ =~= upstream_base_spec(self.upstream_host@, self.upstream_port as int));
        }
        s
    }
}

} // verus!
