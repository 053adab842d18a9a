use proxy::config::{
    default_asset_dir, default_proxy_port, default_rate_limit_burst_size,
    default_rate_limit_per_second, default_upstream_host, default_upstream_port, Config,
    ConfigError,
};
use proxy::countries::{simplify_countries, RawCountry};
use proxy::router::{route_request, Route};
use proxy::strutil::{str_contains, str_starts_with, u64_to_string};
use proxy::themes::api_themes;

fn sample_config() -> Config {
    Config {
        country_api_url: "https://example.test/countries".to_string(),
        proxy_port: 3000,
        upstream_host: "127.0.0.1".to_string(),
        upstream_port: 8081,
        asset_dir: "dist/client".to_string(),
        rate_limit_per_second: 2,
        rate_limit_burst_size: 10,
    }
}

#[test]
fn defaults_match_documented_values() {
    assert_eq!(default_proxy_port(), 3000);
    assert_eq!(default_upstream_host(), "127.0.0.1");
    assert_eq!(default_upstream_port(), 8081);
    assert_eq!(default_asset_dir(), "dist/client");
    assert_eq!(default_rate_limit_per_second(), 2);
    assert_eq!(default_rate_limit_burst_size(), 10);
}

#[test]
fn upstream_base_is_host_and_port() {
    assert_eq!(sample_config().upstream_base(), "http://127.0.0.1:8081");
}

#[test]
fn missing_asset_dir_aborts_startup() {
    // The asset directory is absent: validation fails before any listener
    // could bind.
    let cfg = sample_config();
    assert_eq!(cfg.validate(false, false), Err(ConfigError::AssetDirMissing));
    assert_eq!(
        cfg.validate(true, false),
        Err(ConfigError::AssetDirNotDirectory)
    );
    assert_eq!(cfg.validate(true, true), Ok(()));
}

#[test]
fn invalid_fields_are_each_rejected() {
    let mut cfg = sample_config();
    cfg.proxy_port = 0;
    assert_eq!(cfg.validate(true, true), Err(ConfigError::ProxyPortZero));

    let mut cfg = sample_config();
    cfg.upstream_port = 0;
    assert_eq!(cfg.validate(true, true), Err(ConfigError::UpstreamPortZero));

    let mut cfg = sample_config();
    cfg.upstream_host = String::new();
    assert_eq!(cfg.validate(true, true), Err(ConfigError::UpstreamHostEmpty));

    let mut cfg = sample_config();
    cfg.country_api_url = String::new();
    assert_eq!(cfg.validate(true, true), Err(ConfigError::CountryApiUrlEmpty));
}

#[test]
fn routes_are_dispatched_exactly() {
    assert!(matches!(route_request("GET", "/isHealthy"), Route::Health));
    assert!(matches!(
        route_request("GET", "/api/metrics"),
        Route::MetricsEndpoint
    ));
    assert!(matches!(route_request("POST", "/api/events"), Route::ApiEvents));
    assert!(matches!(route_request("GET", "/api/country"), Route::ApiCountry));
    assert!(matches!(route_request("GET", "/api/themes"), Route::ApiThemes));
    assert!(matches!(route_request("POST", "/isHealthy"), Route::MethodNotAllowed));
    assert!(matches!(route_request("GET", "/api/events"), Route::MethodNotAllowed));
    match route_request("GET", "/assets/js/app.js") {
        Route::Asset { rest } => assert_eq!(rest, "js/app.js"),
        _ => panic!("expected an asset route"),
    }
    match route_request("GET", "/favicon.ico") {
        Route::WellKnownFile { file } => assert_eq!(file, "favicon.ico"),
        _ => panic!("expected a well-known file route"),
    }
    assert!(matches!(route_request("GET", "/some/page"), Route::Fallback));
    assert!(matches!(route_request("POST", "/some/page"), Route::Fallback));
    assert!(matches!(route_request("DELETE", "/"), Route::Fallback));
}

#[test]
fn well_known_files_are_routed_by_name() {
    for path in ["/favicon.ico", "/robots.txt", "/sw.js", "/manifest.webmanifest"] {
        match route_request("GET", path) {
            Route::WellKnownFile { file } => assert_eq!(file, &path[1..]),
            _ => panic!("expected a well-known file route for {path}"),
        }
        assert!(matches!(route_request("POST", path), Route::MethodNotAllowed));
    }
}

#[test]
fn upstream_base_covers_extreme_port() {
    let mut cfg = sample_config();
    cfg.upstream_port = 65535;
    assert_eq!(cfg.upstream_base(), "http://127.0.0.1:65535");
}

#[test]
fn countries_are_simplified_and_sorted() {
    let raw = vec![
        RawCountry {
            cca2: Some("us".to_string()),
            name_common: None,
            region: Some("Americas".to_string()),
            population: None,
            flag_png: None,
        },
        RawCountry {
            cca2: Some("de".to_string()),
            name_common: Some("Germany".to_string()),
            region: Some("Europe".to_string()),
            population: Some(83_000_000),
            flag_png: Some("https://example.test/de.png".to_string()),
        },
    ];
    let out = simplify_countries(raw);
    assert_eq!(out.len(), 2);
    // Sorted by name: "Germany" < "US".
    assert_eq!(out[0].code, "DE");
    assert_eq!(out[0].name, "Germany");
    assert_eq!(out[0].population, 83_000_000);
    assert_eq!(out[0].flag, "https://example.test/de.png");
    // The missing name falls back to the uppercased code.
    assert_eq!(out[1].code, "US");
    assert_eq!(out[1].name, "US");
    assert_eq!(out[1].region, "Americas");
    assert_eq!(out[1].population, 0);
    assert_eq!(out[1].flag, "");
}

#[test]
fn empty_country_name_falls_back_to_code() {
    let raw = vec![RawCountry {
        cca2: Some("fr".to_string()),
        name_common: Some(String::new()),
        region: None,
        population: Some(1),
        flag_png: None,
    }];
    let out = simplify_countries(raw);
    assert_eq!(out[0].name, "FR");
}

#[test]
fn complete_theme_block_is_extracted() {
    let css = "\
body { color: red; }\n\
@plugin \"daisyui/theme\" {\n\
  name: \"dark\";\n\
  --color-primary: #111;\n\
  --color-secondary: oklch(0.5 0.1 200);\n\
  --color-accent: \"quoted value\";\n\
  --color-base-100: #000;\n\
  --color-base-content: #eee;\n\
}\n";
    let themes = api_themes(css);
    assert_eq!(themes.len(), 1);
    assert_eq!(themes[0].name, "dark");
    assert_eq!(themes[0].primary, "#111");
    assert_eq!(themes[0].secondary, "oklch(0.5 0.1 200)");
    assert_eq!(themes[0].accent, "quoted value");
    assert_eq!(themes[0].base100, "#000");
    assert_eq!(themes[0].base_content, "#eee");
}

#[test]
fn contrast_fills_missing_base_content() {
    let css = "\
@plugin \"daisyui/theme\" {\n\
  name: \"light\";\n\
  --color-primary: a;\n\
  --color-secondary: b;\n\
  --color-accent: c;\n\
  --color-base-100: d;\n\
  --color-contrast: e;\n\
}\n";
    let themes = api_themes(css);
    assert_eq!(themes.len(), 1);
    assert_eq!(themes[0].base_content, "e");
}

#[test]
fn incomplete_or_nameless_blocks_are_skipped() {
    let css = "\
@plugin \"daisyui/theme\" {\n\
  --color-primary: a;\n\
  --color-secondary: b;\n\
  --color-accent: c;\n\
  --color-base-100: d;\n\
  --color-base-content: e;\n\
}\n\
@plugin \"daisyui/theme\" {\n\
  name: \"partial\";\n\
  --color-primary: a;\n\
}\n\
@plugin \"daisyui/theme\" {\n\
  name: \"full\";\n\
  --color-primary: a;\n\
  --color-secondary: b;\n\
  --color-accent: c;\n\
  --color-base-100: d;\n\
  --color-base-content: e;\n\
}\n";
    let themes = api_themes(css);
    assert_eq!(themes.len(), 1);
    assert_eq!(themes[0].name, "full");
}

#[test]
fn plain_css_has_no_themes() {
    assert_eq!(api_themes("body { color: red; }").len(), 0);
    assert_eq!(api_themes("").len(), 0);
}

#[test]
fn decimal_rendering_is_exact() {
    assert_eq!(u64_to_string(0), "0");
    assert_eq!(u64_to_string(7), "7");
    assert_eq!(u64_to_string(12345), "12345");
    assert_eq!(u64_to_string(u64::MAX), "18446744073709551615");
}

#[test]
fn substring_search_matches_std() {
    assert!(str_contains("gzip, br", "br"));
    assert!(str_contains("abrupt", "br"));
    assert!(!str_contains("gzip", "br"));
    assert!(str_contains("anything", ""));
    assert!(str_starts_with("/assets/app.js", "/assets/"));
    assert!(!str_starts_with("/asset/app.js", "/assets/"));
}
