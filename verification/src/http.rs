//! The HTTP side of the client: which URL a call goes to, the headers it
//! carries, its body, and which cookies are kept from an answer.

use vstd::prelude::*;
use crate::params::{Params, inserted, pairs_view, query_of, query_string};
use crate::text::{has_prefix, push_char, starts_with};
use crate::weapi::{encrypt_login, is_secret_key, json_text, weapi_form, weapi_text_fits};

verus! {

/// The HTTP method of a request.
#[derive(Clone, Copy, Debug)]
pub enum Method {
    Get,
    Post,
}

/// A request, ready to be sent.
pub struct HttpRequest {
    pub method: Method,
    pub url: String,
    pub headers: Vec<(String, String)>,
    pub body: Option<String>,
}

/// The headers of every call of the service, in order, with the stored
/// cookies in the last one.
pub open spec fn api_headers(cookie: Seq<char>) -> Seq<(Seq<char>, Seq<char>)> {
    seq![
        ("content-type"@, "application/x-www-form-urlencoded"@),
        ("accept"@, "*/*"@),
        ("referer"@, "https://music.163.com"@),
        (
            "user-agent"@,
            "User-Agent: Mozilla/5.0 (X11; Linux x86_64; rv:65.0) Gecko/20100101 Firefox/65.0"@,
        ),
        ("host"@, "music.163.com"@),
        ("accept-encoding"@, "gzip,deflate"@),
        ("cookie"@, cookie),
    ]
}

fn header(v: &mut Vec<(String, String)>, name: &str, value: &str)
    ensures
        pairs_view(final(v)@) == pairs_view(old(v)@).push((name@, value@)),
{
    v.push((name.to_owned(), value.to_owned()));
    assert(pairs_view(v@) =~= pairs_view(old(v)@).push((name@, value@)));
}

/// Builds the headers of a call of the service.
pub fn api_header_list(cookie: &str) -> (h: Vec<(String, String)>)
    ensures
        pairs_view(h@) == api_headers(cookie@),
{
    let mut h: Vec<(String, String)> = Vec::new();
    header(&mut h, "content-type", "application/x-www-form-urlencoded");
    header(&mut h, "accept", "*/*");
    header(&mut h, "referer", "https://music.163.com");
    header(
        &mut h,
        "user-agent",
        "User-Agent: Mozilla/5.0 (X11; Linux x86_64; rv:65.0) Gecko/20100101 Firefox/65.0",
    );
    header(&mut h, "host", "music.163.com");
    header(&mut h, "accept-encoding", "gzip,deflate");
    header(&mut h, "cookie", cookie);
    assert(pairs_view(h@) =~= api_headers(cookie@));
    h
}

/// The URL of a GET call: the parameters, if any, go after a `?`.
pub open spec fn url_with_query(url: Seq<char>, params: Seq<(Seq<char>, Seq<char>)>) -> Seq<char> {
    if params.len() == 0 {
        url
    } else {
        url + seq!['?'] + query_of(params)
    }
}

/// The URL of the QR-code login check, the one answer whose cookies are kept.
pub open spec fn login_check_url() -> Seq<char> {
    "https://music.163.com/weapi/login/qrcode/client/login"@
}

/// `name=value`.
pub open spec fn cookie_pair(c: (Seq<char>, Seq<char>)) -> Seq<char> {
    c.0 + seq!['='] + c.1
}

/// Each cookie as `name=value; `, one after the other.
pub open spec fn cookie_joined(s: Seq<(Seq<char>, Seq<char>)>) -> Seq<char>
    decreases s.len(),
{
    if s.len() == 0 {
        Seq::empty()
    } else {
        cookie_joined(s.drop_last()) + cookie_pair(s.last()) + seq![';', ' ']
    }
}

/// The stored form of a set of cookies: `a=1; b=2;` (the final space
/// dropped), empty for no cookies.
pub open spec fn cookie_line(s: Seq<(Seq<char>, Seq<char>)>) -> Seq<char> {
    if s.len() == 0 {
        Seq::empty()
    } else {
        cookie_joined(s).drop_last()
    }
}

/// Renders cookies in the form in which they are stored and sent back.
pub fn cookie_string(cookies: &Vec<(String, String)>) -> (line: String)
    ensures
        line@ == cookie_line(pairs_view(cookies@)),
{
    let ghost s = pairs_view(cookies@);
    let n = cookies.len();
    let mut line = String::new();
    let mut i: usize = 0;
    while i < n
        invariant
            n == cookies@.len(),
            s == pairs_view(cookies@),
            i <= n,
            line@ == cookie_line(s.take(i as int)),
            i > 0 ==> cookie_joined(s.take(i as int)) == line@.push(' '),
        decreases n - i,
    {
        if i > 0 {
            push_char(&mut line, ' ');
        }
        line.append(cookies[i].0.as_str());
        push_char(&mut line, '=');
        line.append(cookies[i].1.as_str());
        push_char(&mut line, ';');
        proof {
            let t = s.take(i + 1);
            assert(t.drop_last() =~= s.take(i as int));
            assert(t.last() == (cookies@[i as int].0@, cookies@[i as int].1@));
            if i == 0 {
                assert(cookie_joined(s.take(0)) =~= Seq::<char>::empty());
            }
            assert(cookie_joined(t) =~= line@.push(' '));
            assert(cookie_line(t) =~= line@);
        }
        i = i + 1;
    }
    assert(s.take(n as int) =~= s);
    line
}

/// The client's view of the service: the host that relative paths are
/// resolved against.
pub struct CloudMusic {
    host: String,
}

impl CloudMusic {
    /// The host that relative paths are resolved against.
    pub closed spec fn host(&self) -> Seq<char> {
        self.host@
    }

    /// The URL that `url` designates: itself when it starts with `http`,
    /// else a path below the host.
    pub open spec fn resolved(&self, url: Seq<char>) -> Seq<char> {
        if has_prefix(url, "http"@) {
            url
        } else {
            self.host() + url
        }
    }

    /// The client of `https://music.163.com`.
    pub fn default() -> (c: CloudMusic)
        ensures
            c.host() == "https://music.163.com"@,
            has_prefix(c.host(), "http"@),
    {
        proof {
            reveal_strlit("https://music.163.com");
            reveal_strlit("http");
            assert("https://music.163.com"@.subrange(0, 4) =~= "http"@);
        }
        CloudMusic { host: "https://music.163.com".to_owned() }
    }

    /// The full URL that `url` designates.
    pub fn resolve_url(&self, url: &str) -> (r: String)
        ensures
            r@ == self.resolved(url@),
    {
        if starts_with(url, "http") {
            url.to_owned()
        } else {
            let mut r = self.host.clone();
            r.append(url);
            r
        }
    }

    /// A call of the service with the given method and body; the stored
    /// cookies go into its headers.
    pub fn request(&self, method: Method, url: &str, payload: Option<String>, cookie: &str) -> (r:
        HttpRequest)
        ensures
            r.method == method,
            r.url@ == self.resolved(url@),
            pairs_view(r.headers@) == api_headers(cookie@),
            r.body == payload,
    {
        HttpRequest {
            method,
            url: self.resolve_url(url),
            headers: api_header_list(cookie),
            body: payload,
        }
    }

    /// A POST call: adds an empty `csrf_token` to the parameters and sends
    /// them encrypted by the `weapi` scheme, under a fresh random secret key,
    /// as the body.
    pub fn post(&self, url: &str, params: &mut Params, cookie: &str) -> (r: HttpRequest)
        requires
            weapi_text_fits(inserted(old(params)@, "csrf_token"@, ""@)),
        ensures
            final(params)@ == inserted(old(params)@, "csrf_token"@, ""@),
            r.method == Method::Post,
            r.url@ == self.resolved(url@),
            pairs_view(r.headers@) == api_headers(cookie@),
            r.body matches Some(b) && exists|k: Seq<u8>|
                is_secret_key(k) && b@ == #[trigger] weapi_form(final(params)@, k),
    {
        params.insert("csrf_token".to_owned(), "".to_owned());
        let body = encrypt_login(params);
        self.request(Method::Post, url, Some(body), cookie)
    }

    /// A GET call: the parameters, if any, go into the URL.
    pub fn get(&self, url: &str, params: &Params, cookie: &str) -> (r: HttpRequest)
        ensures
            r.method == Method::Get,
            r.url@ == self.resolved(url_with_query(url@, params@)),
            pairs_view(r.headers@) == api_headers(cookie@),
            r.body is None,
    {
        if !params.is_empty() {
            let query = query_string(params);
            let mut with_query = url.to_owned();
            push_char(&mut with_query, '?');
            with_query.append(query.as_str());
            assert(with_query@ =~= url_with_query(url@, params@));
            self.request(Method::Get, with_query.as_str(), None, cookie)
        } else {
            self.request(Method::Get, url, None, cookie)
        }
    }
}

/// Whether the parameters, once `post` has added its `csrf_token`, are small
/// enough to be encrypted (`post` requires it).
pub fn post_body_fits(params: &Params) -> (b: bool)
    ensures
        b == weapi_text_fits(inserted(params@, "csrf_token"@, ""@)),
{
    let mut probe = params.copy();
    probe.insert("csrf_token".to_owned(), "".to_owned());
    let text = json_text(&probe);
    text.as_str().as_bytes().len() <= usize::MAX / 4
}

/// The cookies to store after an answer from `url`: those of the QR-code
/// login check, when there are any.
pub fn cookies_to_store(url: &str, cookies: &Vec<(String, String)>) -> (r: Option<String>)
    ensures
        r is Some <==> url@ == login_check_url() && cookies@.len() > 0,
        r matches Some(line) ==> line@ == cookie_line(pairs_view(cookies@)),
{
    let target = "https://music.163.com/weapi/login/qrcode/client/login".to_owned();
    let u = url.to_owned();
    if u == target {
        let line = cookie_string(cookies);
        if line.unicode_len() > 0 {
            Some(line)
        } else {
            proof {
                if cookies@.len() > 0 {
                    let s = pairs_view(cookies@);
                    assert(cookie_joined(s).len() >= 2) by {
                        assert(cookie_joined(s) == cookie_joined(s.drop_last()) + cookie_pair(
                            s.last(),
                        ) + seq![';', ' ']);
                    }
                }
            }
            None
        }
    } else {
        None
    }
}

/// Resolving is idempotent: a resolved URL resolves to itself.
pub proof fn lemma_resolve_idempotent(c: CloudMusic, url: Seq<char>)
    requires
        has_prefix(c.host(), "http"@),
    ensures
        c.resolved(c.resolved(url)) == c.resolved(url),
{
    if !has_prefix(url, "http"@) {
        let r = c.host() + url;
        assert(r.subrange(0, "http"@.len() as int) =~= c.host().subrange(0, "http"@.len() as int));
    }
}

/// The stored cookie line holds every cookie, in order, as `name=value`,
/// each followed by `; ` but the last, which ends with `;`.
pub proof fn lemma_cookie_line_shape(s: Seq<(Seq<char>, Seq<char>)>, c: (Seq<char>, Seq<char>))
    ensures
        cookie_line(Seq::empty()) == Seq::<char>::empty(),
        cookie_joined(Seq::empty()) == Seq::<char>::empty(),
        cookie_joined(s.push(c)) == cookie_joined(s) + c.0 + seq!['='] + c.1 + seq![';', ' '],
        cookie_line(s.push(c)) == cookie_joined(s) + c.0 + seq!['='] + c.1 + seq![';'],
{
    assert(s.push(c).drop_last() =~= s);
    assert(s.push(c).last() == c);
    assert(cookie_joined(s.push(c)) =~= cookie_joined(s) + c.0 + seq!['='] + c.1 + seq![';', ' ']);
    assert(cookie_line(s.push(c)) =~= cookie_joined(s) + c.0 + seq!['='] + c.1 + seq![';']);
}

/// Every cookie appears in the joined line: the line of a list is the line
/// of its first part followed by that of the rest.
pub proof fn lemma_cookie_joined_append(a: Seq<(Seq<char>, Seq<char>)>, b: Seq<(Seq<char>, Seq<char>)>)
    ensures
        cookie_joined(a + b) == cookie_joined(a) + cookie_joined(b),
    decreases b.len(),
{
    if b.len() == 0 {
        assert(a + b =~= a);
        assert(cookie_joined(b) =~= Seq::<char>::empty());
    } else {
        lemma_cookie_joined_append(a, b.drop_last());
        assert((a + b).drop_last() =~= a + b.drop_last());
        assert((a + b).last() == b.last());
        assert(cookie_joined(a + b) =~= cookie_joined(a) + cookie_joined(b));
    }
}

/// Every call carries seven headers with distinct names, the stored cookies
/// in the last one, named `cookie`.
pub proof fn lemma_api_headers_carry_cookie(cookie: Seq<char>)
    ensures
        api_headers(cookie).len() == 7,
        api_headers(cookie)[6] == ("cookie"@, cookie),
        forall|i: int, j: int|
            0 <= i < j < 7 ==> (#[trigger] api_headers(cookie)[i]).0 != (#[trigger] api_headers(
                cookie,
            )[j]).0,
{
    reveal_strlit("content-type");
    reveal_strlit("accept");
    reveal_strlit("referer");
    reveal_strlit("user-agent");
    reveal_strlit("host");
    reveal_strlit("accept-encoding");
    reveal_strlit("cookie");
    let h = api_headers(cookie);
    assert forall|i: int, j: int| 0 <= i < j < 7 implies (#[trigger] h[i]).0 != (#[trigger] h[j]).0 by {
        if h[i].0.len() == h[j].0.len() {
            assert(h[i].0[0] != h[j].0[0] || h[i].0[1] != h[j].0[1]);
        }
    }
}

} // verus!
