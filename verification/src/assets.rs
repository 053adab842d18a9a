//! Content-negotiated static asset delivery.
//!
//! The filesystem stays outside: callers resolve the variant paths this
//! module derives, report which precompressed variants exist, and hand in the
//! bytes they read. Everything decided here — which variant is selected,
//! the MIME type, the cache directive, the ETag, the exact response headers —
//! is verified.

use vstd::prelude::*;

use crate::http::{push_header, HttpResponse};
use crate::strutil::{ascii_bytes, has_substring, hex_rep, str_contains, str_to_bytes};

use sha2::Digest;

verus! {

/// The content encoding chosen for an asset response.
#[derive(Clone, Copy, Debug, PartialEq, Eq, Structural)]
pub enum ContentEncoding {
    Identity,
    Brotli,
    Gzip,
}

/// The SHA-256 digest of a byte sequence, as the sha2 crate computes it.
pub uninterp spec fn sha256_of(data: Seq<u8>) -> Seq<u8>;

/// Relies on sha2::Sha256::digest: the digest depends on the input bytes
/// alone and is 32 bytes long.
#[verifier::external_body]
fn sha256_digest(data: &[u8]) -> (r: Vec<u8>)
    ensures
        r@ == sha256_of(data@),
        r@.len() == 32,
{
    sha2::Sha256::digest(data).to_vec()
}

/// The MIME type that mime_guess derives from a path's extension.
pub uninterp spec fn mime_of(path: Seq<char>) -> Seq<char>;

/// Relies on mime_guess::from_path followed by first_or_octet_stream: the
/// guess depends on the path (its extension) alone, with
/// `application/octet-stream` where no type is known.
#[verifier::external_body]
fn mime_for_path(path: &str) -> (r: String)
    ensures
        r@ == mime_of(path@),
{
    mime_guess::from_path(path).first_or_octet_stream().to_string()
}

/// The base (uncompressed) filesystem path of a requested asset.
pub open spec fn base_path_spec(asset_root: Seq<char>, request_path: Seq<char>) -> Seq<char> {
    asset_root + "/assets/"@ + request_path
}

/// Composes the base filesystem path for a request below the asset root.
pub fn asset_base_path(asset_root: &str, request_path: &str) -> (r: String)
    ensures
        r@ == base_path_spec(asset_root@, request_path@),
{
    let mut s = String::from_str(asset_root);
    s.append("/assets/");
    s.append(request_path);
    proof {
        assert(s@ =~= base_path_spec(asset_root@, request_path@));
    }
    s
}

/// The path of the precompressed Brotli variant.
pub fn brotli_variant_path(base_path: &str) -> (r: String)
    ensures
        r@ == base_path@ + ".br"@,
{
    let mut s = String::from_str(base_path);
    s.append(".br");
    s
}

/// The path of the precompressed gzip variant.
pub fn gzip_variant_path(base_path: &str) -> (r: String)
    ensures
        r@ == base_path@ + ".gz"@,
{
    let mut s = String::from_str(base_path);
    s.append(".gz");
    s
}

/// Which encoding is selected: Brotli when advertised and present, else gzip
/// when advertised and present, else the identity. Brotli is preferred over
/// gzip when both are viable.
pub open spec fn encoding_choice_spec(
    accepts_br: bool,
    br_exists: bool,
    accepts_gzip: bool,
    gz_exists: bool,
) -> ContentEncoding {
    if accepts_br && br_exists {
        ContentEncoding::Brotli
    } else if accepts_gzip && gz_exists {
        ContentEncoding::Gzip
    } else {
        ContentEncoding::Identity
    }
}

/// The path suffix each encoding choice adds to the base path.
pub open spec fn encoding_suffix_spec(enc: ContentEncoding) -> Seq<char> {
    match enc {
        ContentEncoding::Brotli => ".br"@,
        ContentEncoding::Gzip => ".gz"@,
        ContentEncoding::Identity => Seq::<char>::empty(),
    }
}

/// Negotiates the variant to serve. `accept_encoding` is the client's
/// Accept-Encoding header (the empty string where absent); `br_exists` and
/// `gz_exists` report whether the precompressed variant files exist on disk.
/// Returns the path of the file to read and the chosen encoding.
pub fn select_variant(
    base_path: &str,
    accept_encoding: &str,
    br_exists: bool,
    gz_exists: bool,
) -> (r: (String, ContentEncoding))
    ensures
        r.1 == encoding_choice_spec(
            has_substring(accept_encoding@, "br"@),
            br_exists,
            has_substring(accept_encoding@, "gzip"@),
            gz_exists,
        ),
        r.0@ == base_path@ + encoding_suffix_spec(r.1),
{
    if str_contains(accept_encoding, "br") && br_exists {
        (brotli_variant_path(base_path), ContentEncoding::Brotli)
    } else if str_contains(accept_encoding, "gzip") && gz_exists {
        (gzip_variant_path(base_path), ContentEncoding::Gzip)
    } else {
        let s = String::from_str(base_path);
        proof {
            assert(s@ =~= base_path@ + encoding_suffix_spec(ContentEncoding::Identity));
        }
        (s, ContentEncoding::Identity)
    }
}

/// A hexadecimal character, either case.
pub open spec fn is_hex_char(c: char) -> bool {
    (48 <= c as int && c as int <= 57) || (97 <= c as int && c as int <= 102) || (65 <= c as int
        && c as int <= 70)
}

/// `s` has a dot-delimited segment of at least 8 characters, all
/// hexadecimal, starting at `i` and ending just before `j`.
pub open spec fn hashed_segment_at(s: Seq<char>, i: int, j: int) -> bool {
    &&& 0 <= i <= j <= s.len()
    &&& (i == 0 || s[i - 1] == '.')
    &&& (j == s.len() || s[j] == '.')
    &&& j - i >= 8
    &&& forall|k: int| i <= k < j ==> s[k] != '.' && is_hex_char(s[k])
}

/// The path looks content-hashed: some dot-delimited segment is at least 8
/// characters long and entirely hexadecimal.
pub open spec fn has_hashed_segment(s: Seq<char>) -> bool {
    exists|i: int, j: int| hashed_segment_at(s, i, j)
}

fn is_hex_char_exec(c: char) -> (r: bool)
    ensures
        r == is_hex_char(c),
{
    let u = c as u32;
    (48 <= u && u <= 57) || (97 <= u && u <= 102) || (65 <= u && u <= 70)
}

/// Classifies a path as content-hashed, scanning its dot-delimited segments.
pub fn is_hashed_path(path: &str) -> (r: bool)
    ensures
        r == has_hashed_segment(path@),
{
    let len = path.unicode_len();
    let mut seg_start: usize = 0;
    let mut all_hex: bool = true;
    let mut p: usize = 0;
    while p < len
        invariant
            len == path@.len(),
            seg_start <= p <= len,
            seg_start == 0 || path@[seg_start - 1] == '.',
            forall|k: int| seg_start <= k < p ==> path@[k] != '.',
            all_hex <==> (forall|k: int| seg_start <= k < p ==> is_hex_char(path@[k])),
            forall|i: int, j: int| j < p ==> !hashed_segment_at(path@, i, j),
        decreases len - p,
    {
        let c = path.get_char(p);
        if c == '.' {
            if all_hex && p - seg_start >= 8 {
                proof {
                    assert(hashed_segment_at(path@, seg_start as int, p as int));
                }
                return true;
            }
            proof {
                assert forall|i: int| !hashed_segment_at(path@, i, p as int) by {
                    if hashed_segment_at(path@, i, p as int) {
                        lemma_segment_start_unique(path@, i, p as int, seg_start as int);
                    }
                }
            }
            seg_start = p + 1;
            all_hex = true;
        } else {
            if !is_hex_char_exec(c) {
                all_hex = false;
            }
        }
        p += 1;
    }
    if all_hex && len - seg_start >= 8 {
        proof {
            assert(hashed_segment_at(path@, seg_start as int, len as int));
        }
        return true;
    }
    proof {
        assert forall|i: int, j: int| !hashed_segment_at(path@, i, j) by {
            if hashed_segment_at(path@, i, j) {
                if j < len {
                    assert(false);
                } else {
                    lemma_segment_start_unique(path@, i, len as int, seg_start as int);
                }
            }
        }
    }
    false
}

/// A qualifying segment ending at `j` must start exactly at the scan's
/// current segment start: its characters contain no dot, and segment starts
/// sit right after a dot (or at the front).
proof fn lemma_segment_start_unique(s: Seq<char>, i: int, j: int, seg_start: int)
    requires
        hashed_segment_at(s, i, j),
        0 <= seg_start <= j,
        seg_start == 0 || s[seg_start - 1] == '.',
        forall|k: int| seg_start <= k < j ==> s[k] != '.',
    ensures
        i == seg_start,
{
    if i < seg_start {
        assert(s[seg_start - 1] == '.');
        assert(i <= seg_start - 1 < j);
        assert(false);
    }
    if i > seg_start {
        assert(s[i - 1] == '.');
        assert(seg_start <= i - 1 < j);
        assert(false);
    }
}

/// The Cache-Control directive: immutable year-long caching for
/// content-hashed assets, revalidation for everything else.
pub open spec fn cache_control_spec(hashed: bool) -> Seq<char> {
    if hashed {
        "public, max-age=31536000, immutable"@
    } else {
        "no-cache"@
    }
}

/// Picks the cache directive for an asset.
pub fn cache_control_for(hashed: bool) -> (r: &'static str)
    ensures
        r@ == cache_control_spec(hashed),
{
    if hashed {
        "public, max-age=31536000, immutable"
    } else {
        "no-cache"
    }
}

/// The weak ETag: `W/"<hex of the SHA-256 of the served bytes>"`.
pub open spec fn etag_spec(body: Seq<u8>) -> Seq<char> {
    "W/\""@ + hex_rep(sha256_of(body)) + "\""@
}

/// Computes the weak ETag of the served bytes.
pub fn etag_for(body: &[u8]) -> (r: String)
    ensures
        r@ == etag_spec(body@),
{
    let digest = sha256_digest(body);
    let mut s = String::from_str("W/\"");
    crate::strutil::append_hex(&mut s, digest.as_slice());
    s.append("\"");
    proof {
        assert(s@ =~= etag_spec(body@));
    }
    s
}

/// Law: for an asset whose Brotli variant alone exists, requested by a
/// client advertising `br`, the negotiation picks Brotli: the response is
/// tagged `Content-Encoding: br` while its `Content-Type` is still derived
/// from the uncompressed base path.
pub proof fn lemma_brotli_only_variant(accept: Seq<char>, base_path: Seq<char>, body: Seq<u8>)
    requires
        has_substring(accept, "br"@),
    ensures
        encoding_choice_spec(
            has_substring(accept, "br"@),
            true,
            has_substring(accept, "gzip"@),
            false,
        ) == ContentEncoding::Brotli,
        asset_headers_spec(base_path, ContentEncoding::Brotli, body).last() == (
            "Content-Encoding"@,
            "br"@,
        ),
        asset_headers_spec(base_path, ContentEncoding::Brotli, body)[0] == (
            "Content-Type"@,
            mime_of(base_path),
        ),
{
    let hs = asset_headers_spec(base_path, ContentEncoding::Brotli, body);
    assert(hs.last() == ("Content-Encoding"@, encoding_tag_spec(ContentEncoding::Brotli)));
    assert(hs[0] == ("Content-Type"@, mime_of(base_path)));
}

/// Law: a path with a content-hashed segment is cached immutable for a
/// year; every other path must revalidate.
pub proof fn lemma_cache_policy(base_path: Seq<char>)
    ensures
        has_hashed_segment(base_path) ==> cache_control_spec(has_hashed_segment(base_path))
            == "public, max-age=31536000, immutable"@,
        !has_hashed_segment(base_path) ==> cache_control_spec(has_hashed_segment(base_path))
            == "no-cache"@,
{
}

/// Law: the ETag depends on the served bytes alone — repeated reads of an
/// unchanged asset yield the identical ETag. (That changed bytes change the
/// ETag is a property of the hash itself and is only tested, not proved.)
pub proof fn lemma_etag_deterministic(b1: Seq<u8>, b2: Seq<u8>)
    requires
        b1 == b2,
    ensures
        etag_spec(b1) == etag_spec(b2),
{
}

/// The Content-Encoding tag of a compressed choice.
pub open spec fn encoding_tag_spec(enc: ContentEncoding) -> Seq<char> {
    match enc {
        ContentEncoding::Brotli => "br"@,
        ContentEncoding::Gzip => "gzip"@,
        ContentEncoding::Identity => Seq::<char>::empty(),
    }
}

/// The headers of a successful asset response, in emission order. The MIME
/// type comes from the uncompressed base path; Content-Encoding appears only
/// for a compressed variant.
pub open spec fn asset_headers_spec(
    base_path: Seq<char>,
    enc: ContentEncoding,
    body: Seq<u8>,
) -> Seq<(Seq<char>, Seq<char>)> {
    let common = seq![
        ("Content-Type"@, mime_of(base_path)),
        ("Cache-Control"@, cache_control_spec(has_hashed_segment(base_path))),
        ("ETag"@, etag_spec(body)),
        ("Vary"@, "Accept-Encoding"@),
    ];
    if enc is Identity {
        common
    } else {
        common.push(("Content-Encoding"@, encoding_tag_spec(enc)))
    }
}

/// Builds the asset response from the selected variant's read outcome: a 404
/// with no further headers when the read failed (file missing or unreadable),
/// else a 200 carrying the variant's bytes and the negotiated headers.
pub fn serve_asset(base_path: &str, encoding: ContentEncoding, read: Option<Vec<u8>>) -> (r:
    HttpResponse)
    ensures
        read is None ==> r.status == 404 && r.headers_view() == Seq::<(Seq<char>, Seq<
            char,
        >)>::empty() && r.body@ == ascii_bytes("Not Found"@),
        read is Some ==> r.status == 200 && r.body@ == read.unwrap()@ && r.headers_view()
            == asset_headers_spec(base_path@, encoding, read.unwrap()@),
{
    match read {
        None => {
            let r = HttpResponse { status: 404, headers: Vec::new(), body: str_to_bytes(
                "Not Found",
            ) };
            proof {
                assert(r.headers_view() =~= Seq::<(Seq<char>, Seq<char>)>::empty());
            }
            r
        },
        Some(bytes) => {
            let mut headers: Vec<(String, String)> = Vec::new();
            push_header(&mut headers, "Content-Type", mime_for_path(base_path));
            let hashed = is_hashed_path(base_path);
            push_header(&mut headers, "Cache-Control", String::from_str(cache_control_for(hashed)));
            push_header(&mut headers, "ETag", etag_for(bytes.as_slice()));
            push_header(&mut headers, "Vary", String::from_str("Accept-Encoding"));
            match encoding {
                ContentEncoding::Identity => {},
                ContentEncoding::Brotli => {
                    push_header(&mut headers, "Content-Encoding", String::from_str("br"));
                },
                ContentEncoding::Gzip => {
                    push_header(&mut headers, "Content-Encoding", String::from_str("gzip"));
                },
            }
            let r = HttpResponse { status: 200, headers, body: bytes };
            proof {
                assert(r.headers_view() =~= asset_headers_spec(base_path@, encoding, r.body@));
            }
            r
        },
    }
}

} // verus!
