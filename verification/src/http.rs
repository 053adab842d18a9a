//! Plain-value model of an HTTP response: status, ordered header pairs, and
//! the body bytes. The outer server turns this into its wire representation.

use vstd::prelude::*;

verus! {

/// A response produced by a handler: a status code, the response headers in
/// the order they are emitted, and the body.
pub struct HttpResponse {
    pub status: u16,
    pub headers: Vec<(String, String)>,
    pub body: Vec<u8>,
}

impl HttpResponse {
    /// The headers as a sequence of (name, value) character sequences.
    pub open spec fn headers_view(self) -> Seq<(Seq<char>, Seq<char>)> {
        self.headers.deep_view()
    }
}

/// Appends one header pair, keeping the order.
pub fn push_header(headers: &mut Vec<(String, String)>, name: &str, value: String)
    ensures
        final(headers).deep_view() == old(headers).deep_view().push((name@, value@)),
{
    headers.push((String::from_str(name), value));
    proof {
        assert(headers.deep_view() =~= old(headers).deep_view().push((name@, value@)));
    }
}

} // verus!
