//! The request that fetches a track's audio file.

use vstd::prelude::*;
use crate::http::{HttpRequest, Method};
use crate::params::pairs_view;

verus! {

/// The headers of a download, in order.
pub open spec fn download_headers() -> Seq<(Seq<char>, Seq<char>)> {
    seq![
        ("cache-control"@, "no-cache"@),
        ("pragma"@, "no-cache"@),
        ("upgrade-insecure-requests"@, "1"@),
        (
            "accept"@,
            "text/html,application/xhtml+xml,application/xml;q=0.9,image/webp,image/apng,*/*;q=0.8,application/signed-exchange;v=b3"@,
        ),
        ("accept-encoding"@, "gzip,deflate"@),
        (
            "user-agent"@,
            "User-Agent: Mozilla/5.0 (X11; Linux x86_64; rv:65.0) Gecko/20100101 Firefox/65.0"@,
        ),
    ]
}

/// Builds the headers of a download.
pub fn download_header_list() -> (h: Vec<(String, String)>)
    ensures
        pairs_view(h@) == download_headers(),
{
    let mut h: Vec<(String, String)> = Vec::new();
    h.push(("cache-control".to_owned(), "no-cache".to_owned()));
    h.push(("pragma".to_owned(), "no-cache".to_owned()));
    h.push(("upgrade-insecure-requests".to_owned(), "1".to_owned()));
    h.push(
        (
            "accept".to_owned(),
            "text/html,application/xhtml+xml,application/xml;q=0.9,image/webp,image/apng,*/*;q=0.8,application/signed-exchange;v=b3".to_owned(),
        ),
    );
    h.push(("accept-encoding".to_owned(), "gzip,deflate".to_owned()));
    h.push(
        (
            "user-agent".to_owned(),
            "User-Agent: Mozilla/5.0 (X11; Linux x86_64; rv:65.0) Gecko/20100101 Firefox/65.0".to_owned(),
        ),
    );
    assert(pairs_view(h@) =~= download_headers());
    h
}

/// The request that fetches a track's audio file: a GET of `url` with the
/// download headers and no body.
pub fn download_request(url: &str) -> (r: HttpRequest)
    ensures
        r.method == Method::Get,
        r.url@ == url@,
        pairs_view(r.headers@) == download_headers(),
        r.body is None,
{
    HttpRequest { method: Method::Get, url: url.to_owned(), headers: download_header_list(), body: None }
}

} // verus!
