//! Turning a resolved request into a `reqwest` request.
use vstd::prelude::*;

use crate::dtypes::{method_from_name, method_name};
use crate::text::chars_of;
use crate::conf::opt_view;
use crate::vars::{headers_json, headers_to_json, ResolvedRequest};

verus! {

/// `reqwest::Client`, which builds and sends requests.
#[verifier::external_type_specification]
#[verifier::external_body]
pub struct ExReqwestClient(reqwest::Client);

/// `reqwest::Request`, a request ready to be sent.
#[verifier::external_type_specification]
#[verifier::external_body]
pub struct ExReqwestRequest(reqwest::Request);

/// `reqwest::RequestBuilder`, a request under construction.
#[verifier::external_type_specification]
#[verifier::external_body]
pub struct ExReqwestRequestBuilder(reqwest::RequestBuilder);

/// `reqwest::Url`, the URL type of `url`.
#[verifier::external_type_specification]
#[verifier::external_body]
pub struct ExUrl(reqwest::Url);

/// `url::ParseError`, why a URL did not parse.
#[verifier::external_type_specification]
#[verifier::external_body]
pub struct ExUrlParseError(url::ParseError);

/// `reqwest::Error`, why building a request failed.
#[verifier::external_type_specification]
#[verifier::external_body]
pub struct ExReqwestError(reqwest::Error);

/// Each pair of strings taken by its view.
pub open spec fn pair_views(s: Seq<(String, String)>) -> Seq<(Seq<char>, Seq<char>)> {
    Seq::new(s.len(), |i: int| (s[i].0@, s[i].1@))
}

/// What a request is built from: the method's name, the text its URL was
/// parsed from, the query pairs appended to that URL in order, the headers
/// added in order and the body.
///
/// `reqwest` builds the request from exactly these: `Client::request` keeps
/// the method and the URL, `RequestBuilder::header` appends the header,
/// `RequestBuilder::body` sets the body and `RequestBuilder::build` hands out
/// what was stored. (One thing `reqwest` adds on its own: a user name and a
/// password written in the URL are taken out of it and sent as an
/// `Authorization` header.)
pub struct RequestParts {
    pub method: Seq<char>,
    pub url: Seq<char>,
    pub query: Seq<(Seq<char>, Seq<char>)>,
    pub headers: Seq<(Seq<char>, Seq<char>)>,
    pub body: Option<Seq<char>>,
}

/// A parsed URL with the length in bytes of its text, the text it was
/// parsed from and the query pairs appended to it since.
struct PreparedUrl {
    url: reqwest::Url,
    len: usize,
    source: Ghost<Seq<char>>,
    query: Ghost<Seq<(Seq<char>, Seq<char>)>>,
}

/// The most headers a request is built with. `http`'s `HeaderMap` holds at
/// most 32768 slots and panics when it cannot grow; once many header names
/// collide it may ask to grow from 6554 distinct names on. This bound, with
/// the one header `reqwest` may add for credentials in the URL, stays below.
pub const MAX_HEADERS: usize = 4096;

/// The longest text, in bytes, that a URL may reach while query pairs are
/// appended: `url` keeps its offsets as `u32` and panics past that when it
/// puts a fragment back after the query.
pub const MAX_URL_LEN: usize = 4294967295;

/// How much appending the pair can lengthen a URL's text, at most: each
/// character takes at most four bytes and each byte at most three once
/// form-encoded, and a `?` or `&` and the `=` are added.
pub open spec fn pair_growth(p: (String, String)) -> int {
    (12 * (p.0@.len() + p.1@.len()) + 3) as int
}

/// How much appending the pairs in order can lengthen a URL's text, at most.
pub open spec fn query_growth(ps: Seq<(String, String)>) -> int
    decreases ps.len(),
{
    if ps.len() == 0 {
        0
    } else {
        query_growth(ps.drop_last()) + pair_growth(ps.last())
    }
}

/// The growth of a prefix of the pairs is at most that of all of them.
proof fn lemma_query_growth_prefix(ps: Seq<(String, String)>, i: int)
    requires
        0 <= i <= ps.len(),
    ensures
        query_growth(ps.take(i)) <= query_growth(ps),
    decreases ps.len(),
{
    if i < ps.len() {
        lemma_query_growth_prefix(ps.drop_last(), i);
        assert(ps.drop_last().take(i) =~= ps.take(i));
    } else {
        assert(ps.take(i) =~= ps);
    }
}

/// Whether the pairs' growth fits in `budget`.
fn query_fits(ps: &Vec<(String, String)>, budget: usize) -> (r: bool)
    ensures
        r == (query_growth(ps@) <= budget),
{
    let mut used: u128 = 0;
    let mut i: usize = 0;
    while i < ps.len()
        invariant
            i <= ps@.len(),
            used == query_growth(ps@.take(i as int)),
            used <= budget,
        decreases ps@.len() - i,
    {
        let k = chars_of(ps[i].0.as_str()).len() as u128;
        let v = chars_of(ps[i].1.as_str()).len() as u128;
        let next = used + 12 * (k + v) + 3;
        proof {
            assert(ps@.take(i + 1).drop_last() =~= ps@.take(i as int));
            lemma_query_growth_prefix(ps@, i + 1);
        }
        if next > budget as u128 {
            proof {
                lemma_query_growth_prefix(ps@, i + 1);
            }
            return false;
        }
        used = next;
        i = i + 1;
    }
    assert(ps@.take(i as int) =~= ps@);
    true
}

/// A request under construction, with what it is being built from and
/// whether `reqwest` has accepted everything stored so far.
struct RequestDraft {
    builder: reqwest::RequestBuilder,
    parts: Ghost<RequestParts>,
    accepted: Ghost<bool>,
}

/// A finished request, with what it was built from.
pub struct BuiltRequest {
    request: reqwest::Request,
    parts: Ghost<RequestParts>,
}

impl BuiltRequest {
    /// What the request was built from.
    pub closed spec fn parts(&self) -> RequestParts {
        self.parts@
    }

    /// The request.
    pub fn request(&self) -> &reqwest::Request {
        &self.request
    }

    /// The request, taken out.
    pub fn into_request(self) -> reqwest::Request {
        self.request
    }
}

/// Whether `reqwest::Url::parse` accepts the text.
pub uninterp spec fn url_parses(s: Seq<char>) -> bool;

/// Whether the URL that `reqwest::Url::parse` makes of the text has a host,
/// which `reqwest::Client::request` asks of the URL it is given (appending
/// query pairs leaves the host as it is).
pub uninterp spec fn url_has_host(s: Seq<char>) -> bool;

/// The characters `http` takes in a header name: the token characters of
/// its `HEADER_CHARS` table (upper-case letters are taken as lower-case).
pub open spec fn header_name_char(c: char) -> bool {
    ||| ('0' <= c && c <= '9')
    ||| ('a' <= c && c <= 'z')
    ||| ('A' <= c && c <= 'Z')
    ||| c == '!' || c == '#' || c == '$' || c == '%' || c == '&' || c == '\''
    ||| c == '*' || c == '+' || c == '-' || c == '.' || c == '^' || c == '_'
    ||| c == '`' || c == '|' || c == '~'
}

/// The characters `http` takes in a header value: tab, and every character
/// from space on but DEL.
pub open spec fn header_value_char(c: char) -> bool {
    c == '\t' || (' ' <= c && c != '\x7f')
}

/// Whether `reqwest::RequestBuilder::header` accepts the name and the value,
/// as `HeaderName::from_bytes` and `HeaderValue::from_str` do: a name of 1
/// to 65535 name characters, and a value of value characters.
pub open spec fn header_accepted(key: Seq<char>, value: Seq<char>) -> bool {
    &&& 0 < key.len() <= 65535
    &&& forall|i: int| 0 <= i < key.len() ==> #[trigger] header_name_char(key[i])
    &&& forall|i: int| 0 <= i < value.len() ==> #[trigger] header_value_char(value[i])
}

/// The length in bytes of the text of the URL that `reqwest::Url::parse`
/// makes of the text.
pub uninterp spec fn url_text_len(s: Seq<char>) -> nat;

/// `reqwest::Url::parse`; whether it succeeds is named `url_parses`.
#[verifier::external_body]
fn parse_url(s: &str) -> (r: Result<PreparedUrl, url::ParseError>)
    ensures
        r is Ok <==> url_parses(s@),
        r matches Ok(u) ==> u.source@ == s@ && u.query@ == Seq::<(Seq<char>, Seq<char>)>::empty()
            && u.len == url_text_len(s@),
{
    match reqwest::Url::parse(s) {
        Ok(url) => Ok(
            PreparedUrl {
                len: url.as_str().len(),
                url,
                source: Ghost(s@),
                query: Ghost(Seq::empty()),
            },
        ),
        Err(e) => Err(e),
    }
}

/// `url.query_pairs_mut().append_pair(key, value)`: appends the
/// form-encoded pair to the URL's query (after a `?`, or an `&` when the
/// query holds something), each byte of the key and the value kept or
/// written as `+` or `%XX`. The text must stay within `MAX_URL_LEN` bytes.
#[verifier::external_body]
fn append_query_pair(url: &mut PreparedUrl, key: &str, value: &str)
    requires
        old(url).len + 12 * (key@.len() + value@.len()) + 3 <= MAX_URL_LEN,
    ensures
        final(url).source@ == old(url).source@,
        final(url).query@ == old(url).query@.push((key@, value@)),
        final(url).len <= old(url).len + 12 * (key@.len() + value@.len()) + 3,
{
    url.url.query_pairs_mut().append_pair(key, value);
    url.len = url.url.as_str().len();
    url.query = Ghost(url.query@.push((key@, value@)));
}

/// `reqwest::Client::request`: starts a request with the URL and the
/// method of the given name, converted by `reqwest::Method::from_bytes`.
/// The source of `http` maps each of the nine standard names to its
/// standard method, so on them the conversion succeeds and the default it
/// falls back to is never used.
#[verifier::external_body]
fn client_request(client: &reqwest::Client, method_name: &str, url: PreparedUrl) -> (r:
    RequestDraft)
    requires
        method_from_name(method_name@) is Some,
    ensures
        r.parts@ == (RequestParts {
            method: method_name@,
            url: url.source@,
            query: url.query@,
            headers: Seq::empty(),
            body: None,
        }),
        r.accepted@ == url_has_host(url.source@),
{
    let parts = Ghost(RequestParts {
        method: method_name@,
        url: url.source@,
        query: url.query@,
        headers: Seq::empty(),
        body: None,
    });
    let method = reqwest::Method::from_bytes(method_name.as_bytes()).unwrap_or_default();
    let accepted = Ghost(url_has_host(url.source@));
    RequestDraft { builder: client.request(method, url.url), parts, accepted }
}

/// `reqwest::RequestBuilder::header`: appends a header (an invalid name or
/// value is kept as the error that `build` returns). The draft holds fewer
/// than `MAX_HEADERS` headers, so the header map has room.
#[verifier::external_body]
fn builder_header(b: RequestDraft, key: &str, value: &str) -> (r: RequestDraft)
    requires
        b.parts@.headers.len() < MAX_HEADERS,
    ensures
        r.parts@ == (RequestParts { headers: b.parts@.headers.push((key@, value@)), ..b.parts@ }),
        r.accepted@ == (b.accepted@ && header_accepted(key@, value@)),
{
    let parts = Ghost(RequestParts { headers: b.parts@.headers.push((key@, value@)), ..b.parts@ });
    let accepted = Ghost(b.accepted@ && header_accepted(key@, value@));
    RequestDraft { builder: b.builder.header(key, value), parts, accepted }
}

/// `reqwest::RequestBuilder::body`: sets the body.
#[verifier::external_body]
fn builder_body(b: RequestDraft, body: String) -> (r: RequestDraft)
    ensures
        r.parts@ == (RequestParts { body: Some(body@), ..b.parts@ }),
        r.accepted@ == b.accepted@,
{
    let parts = Ghost(RequestParts { body: Some(body@), ..b.parts@ });
    RequestDraft { builder: b.builder.body(body), parts, accepted: b.accepted }
}

/// `reqwest::RequestBuilder::build`: the request built from what was
/// stored, or the first error met while storing it.
#[verifier::external_body]
fn builder_build(b: RequestDraft) -> (r: Result<BuiltRequest, reqwest::Error>)
    ensures
        r is Ok <==> b.accepted@,
        r matches Ok(req) ==> req.parts() == b.parts@,
{
    match b.builder.build() {
        Ok(request) => Ok(BuiltRequest { request, parts: b.parts }),
        Err(e) => Err(e),
    }
}

/// Why a resolved request could not be turned into a `reqwest` request.
#[derive(Debug)]
pub enum BuildRequestError {
    /// The URL did not parse.
    InvalidUrl(url::ParseError),
    /// `reqwest` refused the request (e.g. an invalid header).
    Http(reqwest::Error),
    /// Appending the query parameters could take the URL past
    /// `MAX_URL_LEN` bytes.
    UrlTooLong,
}

/// Whether `reqwest` accepts every header of the sequence.
pub open spec fn headers_accepted(hs: Seq<(String, String)>) -> bool {
    forall|i: int| 0 <= i < hs.len() ==> #[trigger] header_accepted(hs[i].0@, hs[i].1@)
}

/// What a resolved request is built from: its method's name, its URL, its
/// query parameters, its headers and its body.
pub open spec fn resolved_parts(r: ResolvedRequest) -> RequestParts {
    RequestParts {
        method: method_name(r.method),
        url: r.url@,
        query: pair_views(r.query_params@),
        headers: pair_views(r.headers@),
        body: match r.body {
            Some(b) => Some(b@),
            None => None,
        },
    }
}

/// A resolved request is built from its method's name, its URL, every one
/// of its query parameters and headers in order, each by its view, and its
/// body.
pub proof fn law_resolved_parts_keep_every_pair(r: ResolvedRequest)
    ensures
        resolved_parts(r).method == method_name(r.method),
        resolved_parts(r).url == r.url@,
        resolved_parts(r).query.len() == r.query_params@.len(),
        forall|i: int|
            0 <= i < r.query_params@.len() ==> #[trigger] resolved_parts(r).query[i] == (
                r.query_params@[i].0@,
                r.query_params@[i].1@,
            ),
        resolved_parts(r).headers.len() == r.headers@.len(),
        forall|i: int|
            0 <= i < r.headers@.len() ==> #[trigger] resolved_parts(r).headers[i] == (
                r.headers@[i].0@,
                r.headers@[i].1@,
            ),
        r.body is None ==> resolved_parts(r).body is None,
        r.body matches Some(b) ==> resolved_parts(r).body == Some(b@),
{
}

/// The body of a response as it is kept: `None` for an empty body, else
/// the text.
pub fn response_body(text: String) -> (r: Option<String>)
    ensures
        text@.len() == 0 ==> r is None,
        text@.len() > 0 ==> (r matches Some(b) && b@ == text@),
{
    if chars_of(text.as_str()).len() == 0 {
        None
    } else {
        Some(text)
    }
}

/// What a response gives the history: its status, its headers as
/// (name, value) pairs and its body.
pub struct ResponseSummary {
    pub status: u16,
    pub headers: Vec<(String, String)>,
    pub body: Option<String>,
}

/// What the history records of a run's outcome (the time it took is kept
/// beside it by the program).
pub struct RunRecord {
    pub success: bool,
    pub res_status: Option<u16>,
    pub res_body: Option<String>,
    pub res_headers: String,
}

/// The record of a run: for a response, success with its status, body and
/// headers as JSON; for a failed send, no success, no status or body, and
/// the empty JSON array of headers.
pub fn run_record(response: Option<ResponseSummary>) -> (r: RunRecord)
    ensures
        match response {
            Some(resp) => {
                &&& r.success
                &&& r.res_status == Some(resp.status)
                &&& opt_view(r.res_body) == opt_view(resp.body)
                &&& r.res_headers@ == headers_json(resp.headers@)
            },
            None => {
                &&& !r.success
                &&& r.res_status is None
                &&& r.res_body is None
                &&& r.res_headers@ == headers_json(Seq::empty())
            },
        },
{
    match response {
        Some(resp) => {
            let res_headers = headers_to_json(&resp.headers);
            RunRecord {
                success: true,
                res_status: Some(resp.status),
                res_body: resp.body,
                res_headers,
            }
        },
        None => {
            let res_headers = headers_to_json(&Vec::new());
            RunRecord { success: false, res_status: None, res_body: None, res_headers }
        },
    }
}

impl ResolvedRequest {
    /// Builds the `reqwest` request: the URL with the query parameters
    /// appended in order, the method, the headers in order and the body.
    /// It is built when the URL parses, the query parameters fit, the URL
    /// has a host and every header is accepted; otherwise the error says
    /// which step failed. At most `MAX_HEADERS` headers are taken.
    pub fn build_reqwest(&self, client: &reqwest::Client) -> (r: Result<
        BuiltRequest,
        BuildRequestError,
    >)
        requires
            self.headers@.len() <= MAX_HEADERS,
        ensures
            (r matches Err(BuildRequestError::InvalidUrl(_))) <==> !url_parses(self.url@),
            (r matches Err(BuildRequestError::UrlTooLong)) <==> url_parses(self.url@)
                && self.query_params@.len() > 0 && url_text_len(self.url@) + query_growth(
                self.query_params@,
            ) > MAX_URL_LEN,
            (r matches Err(BuildRequestError::Http(_))) <==> url_parses(self.url@) && !(
            self.query_params@.len() > 0 && url_text_len(self.url@) + query_growth(
                self.query_params@,
            ) > MAX_URL_LEN) && !(url_has_host(self.url@) && headers_accepted(self.headers@)),
            r matches Ok(req) ==> req.parts() == resolved_parts(*self),
            r matches Ok(req) ==> ({
                &&& req.parts().method == method_name(self.method)
                &&& req.parts().url == self.url@
                &&& req.parts().query.len() == self.query_params@.len()
                &&& forall|i: int|
                    0 <= i < self.query_params@.len() ==> #[trigger] req.parts().query[i] == (
                        self.query_params@[i].0@,
                        self.query_params@[i].1@,
                    )
                &&& req.parts().headers.len() == self.headers@.len()
                &&& forall|i: int|
                    0 <= i < self.headers@.len() ==> #[trigger] req.parts().headers[i] == (
                        self.headers@[i].0@,
                        self.headers@[i].1@,
                    )
            }),
    {
        proof {
            law_resolved_parts_keep_every_pair(*self);
        }
        let mut url = match parse_url(self.url.as_str()) {
            Ok(u) => u,
            Err(e) => return Err(BuildRequestError::InvalidUrl(e)),
        };
        proof {
            lemma_query_growth_prefix(self.query_params@, 0);
            assert(self.query_params@.take(0) =~= Seq::<(String, String)>::empty());
        }
        if self.query_params.len() > 0 {
            if url.len > MAX_URL_LEN || !query_fits(&self.query_params, MAX_URL_LEN - url.len) {
                return Err(BuildRequestError::UrlTooLong);
            }
        }
        let ghost len0 = url.len;
        let mut i: usize = 0;
        assert(pair_views(self.query_params@.take(0)) =~= Seq::empty());
        while i < self.query_params.len()
            invariant
                i <= self.query_params@.len(),
                url.source@ == self.url@,
                url.query@ == pair_views(self.query_params@.take(i as int)),
                self.query_params@.len() > 0 ==> len0 + query_growth(self.query_params@) <= MAX_URL_LEN,
                url.len <= len0 + query_growth(self.query_params@.take(i as int)),
                len0 == url_text_len(self.url@),
            decreases self.query_params@.len() - i,
        {
            proof {
                lemma_query_growth_prefix(self.query_params@, i + 1);
                assert(self.query_params@.take(i + 1).drop_last() =~= self.query_params@.take(
                    i as int,
                ));
            }
            append_query_pair(&mut url, self.query_params[i].0.as_str(), self.query_params[i].1.as_str());
            proof {
                assert(pair_views(self.query_params@.take(i + 1)) =~= pair_views(
                    self.query_params@.take(i as int),
                ).push((self.query_params@[i as int].0@, self.query_params@[i as int].1@)));
            }
            i = i + 1;
        }
        proof {
            assert(self.query_params@.take(i as int) =~= self.query_params@);
            crate::dtypes::lemma_method_name_roundtrip(self.method);
        }
        let mut builder = client_request(client, self.method.as_str(), url);
        let mut j: usize = 0;
        assert(pair_views(self.headers@.take(0)) =~= Seq::empty());
        assert(headers_accepted(self.headers@.take(0)));
        while j < self.headers.len()
            invariant
                j <= self.headers@.len(),
                self.headers@.len() <= MAX_HEADERS,
                builder.parts@ == (RequestParts {
                    headers: pair_views(self.headers@.take(j as int)),
                    body: None,
                    ..resolved_parts(*self)
                }),
                builder.accepted@ == (url_has_host(self.url@) && headers_accepted(
                    self.headers@.take(j as int),
                )),
            decreases self.headers@.len() - j,
        {
            builder = builder_header(builder, self.headers[j].0.as_str(), self.headers[j].1.as_str());
            proof {
                assert(pair_views(self.headers@.take(j + 1)) =~= pair_views(
                    self.headers@.take(j as int),
                ).push((self.headers@[j as int].0@, self.headers@[j as int].1@)));
                let taken = self.headers@.take(j + 1);
                assert(headers_accepted(taken) == (headers_accepted(self.headers@.take(j as int))
                    && header_accepted(taken[j as int].0@, taken[j as int].1@)));
            }
            j = j + 1;
        }
        proof {
            assert(self.headers@.take(j as int) =~= self.headers@);
        }
        match &self.body {
            Some(body) => {
                builder = builder_body(builder, body.clone());
            },
            None => {},
        }
        match builder_build(builder) {
            Ok(req) => Ok(req),
            Err(e) => Err(BuildRequestError::Http(e)),
        }
    }
}

} // verus!
