use proxy::assets::{
    asset_base_path, cache_control_for, etag_for, is_hashed_path, select_variant, serve_asset,
    ContentEncoding,
};
use proxy::http::HttpResponse;
use sha2::{Digest, Sha256};

fn header<'a>(resp: &'a HttpResponse, name: &str) -> Option<&'a str> {
    resp.headers
        .iter()
        .find(|(n, _)| n == name)
        .map(|(_, v)| v.as_str())
}

#[test]
fn base_path_is_composed_under_assets() {
    assert_eq!(
        asset_base_path("dist/client", "app.js"),
        "dist/client/assets/app.js"
    );
}

#[test]
fn brotli_preferred_over_gzip() {
    let (path, enc) = select_variant("dist/client/assets/app.js", "gzip, br", true, true);
    assert_eq!(path, "dist/client/assets/app.js.br");
    assert!(matches!(enc, ContentEncoding::Brotli));
}

#[test]
fn gzip_chosen_when_brotli_unavailable() {
    let (path, enc) = select_variant("dist/client/assets/app.js", "gzip, br", false, true);
    assert_eq!(path, "dist/client/assets/app.js.gz");
    assert!(matches!(enc, ContentEncoding::Gzip));

    let (path2, enc2) = select_variant("dist/client/assets/app.js", "gzip", true, true);
    assert_eq!(path2, "dist/client/assets/app.js.gz");
    assert!(matches!(enc2, ContentEncoding::Gzip));
}

#[test]
fn identity_when_nothing_advertised() {
    let (path, enc) = select_variant("dist/client/assets/app.js", "", true, true);
    assert_eq!(path, "dist/client/assets/app.js");
    assert!(matches!(enc, ContentEncoding::Identity));
}

#[test]
fn brotli_variant_keeps_base_content_type() {
    // Only the .br variant exists and the client advertises br: the response
    // is tagged br but typed from the uncompressed path's extension.
    let base = asset_base_path("dist/client", "style.css");
    let (_, enc) = select_variant(&base, "br", true, false);
    assert!(matches!(enc, ContentEncoding::Brotli));
    let resp = serve_asset(&base, enc, Some(b"compressed".to_vec()));
    assert_eq!(resp.status, 200);
    assert_eq!(header(&resp, "Content-Encoding"), Some("br"));
    assert_eq!(header(&resp, "Content-Type"), Some("text/css"));
    assert_eq!(header(&resp, "Vary"), Some("Accept-Encoding"));
}

#[test]
fn hashed_segment_gets_immutable_cache() {
    assert!(is_hashed_path("dist/client/assets/app.4f9a1c2e.js"));
    assert_eq!(
        cache_control_for(is_hashed_path("dist/client/assets/app.4f9a1c2e.js")),
        "public, max-age=31536000, immutable"
    );
    assert!(!is_hashed_path("dist/client/assets/app.js"));
    assert_eq!(
        cache_control_for(is_hashed_path("dist/client/assets/app.js")),
        "no-cache"
    );
}

#[test]
fn hashed_classification_requires_full_hex_segment() {
    // Eight hex characters, but the segment holds more than hex.
    assert!(!is_hashed_path("assets/app.4f9a1c2ex.js"));
    // Seven hex characters only.
    assert!(!is_hashed_path("assets/app.4f9a1c2.js"));
    // Upper-case hex counts too.
    assert!(is_hashed_path("assets/app.4F9A1C2E.js"));
}

#[test]
fn etag_matches_sha256_of_served_bytes() {
    let bytes = b"hello world".to_vec();
    let etag = etag_for(&bytes);
    assert_eq!(etag, format!("W/\"{:x}\"", Sha256::digest(&bytes)));
}

#[test]
fn etag_is_stable_and_content_sensitive() {
    let a = etag_for(b"same bytes");
    let b = etag_for(b"same bytes");
    let c = etag_for(b"other bytes");
    assert_eq!(a, b);
    assert_ne!(a, c);
}

#[test]
fn missing_file_yields_plain_404() {
    let resp = serve_asset("dist/client/assets/app.js", ContentEncoding::Identity, None);
    assert_eq!(resp.status, 404);
    assert_eq!(resp.body, b"Not Found".to_vec());
    assert!(resp.headers.is_empty());
}

#[test]
fn served_bytes_are_returned_unchanged() {
    let bytes = vec![1u8, 2, 3, 255];
    let resp = serve_asset(
        "dist/client/assets/blob.bin",
        ContentEncoding::Identity,
        Some(bytes.clone()),
    );
    assert_eq!(resp.status, 200);
    assert_eq!(resp.body, bytes);
    assert_eq!(header(&resp, "Content-Encoding"), None);
    assert_eq!(
        header(&resp, "ETag"),
        Some(format!("W/\"{:x}\"", Sha256::digest(&bytes)).as_str())
    );
}
