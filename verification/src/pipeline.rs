//! The per-request proxy pipeline: cache-key derivation, hit/miss decision,
//! target-URL validation, and mapping of upstream outcomes to responses.
//!
//! The pipeline is split at its one unavoidable suspension point, the
//! upstream call. `ProxyServer::begin_request` takes one inbound request as
//! far as it can go without the network: it either answers (a cache hit, or
//! an unparsable target URL) or hands back a forwarding plan. The caller
//! performs the upstream exchange and reports what happened to
//! `ProxyServer::finish_request`, which updates the store and builds the
//! final response. Every path ends in exactly one response.

use vstd::prelude::*;
use vstd::slice::slice_to_vec;
use vstd::string::StringExecFns;
use vstd::string::StringSliceAdditionalSpecFns;

use crate::cache::CacheEntry;
use crate::cache::EntryModel;
use crate::cache::MemoryCache;
use crate::cache::StoreModel;
use crate::cache::clone_bytes;
use crate::cache::clone_headers;
use crate::cache::headers_model;
use crate::cache::spec_get;
use crate::cache::spec_set;

verus! {

/// The method of an inbound request, as far as the pipeline distinguishes it.
#[derive(Clone, Copy, Debug)]
pub enum RequestMethod {
    Get,
    Head,
    Post,
    Put,
    Delete,
    Options,
    Patch,
    Other,
}

/// Only GET requests are cacheable.
pub open spec fn spec_is_cacheable(m: RequestMethod) -> bool {
    m is Get
}

/// Whether a request with this method may read or write the cache.
pub fn is_cacheable(m: &RequestMethod) -> (r: bool)
    ensures
        r == spec_is_cacheable(*m),
{
    match m {
        RequestMethod::Get => true,
        _ => false,
    }
}

/// Mathematical model of one client-visible response.
#[verifier::ext_equal]
pub ghost struct ResponseModel {
    pub status: u16,
    pub headers: Seq<(Seq<char>, Seq<u8>)>,
    pub body: Seq<u8>,
}

/// One fully materialized response to hand to the client.
pub struct ProxyResponse {
    pub status: u16,
    pub headers: Vec<(String, Vec<u8>)>,
    pub body: Vec<u8>,
}

impl View for ProxyResponse {
    type V = ResponseModel;

    open spec fn view(&self) -> ResponseModel {
        ResponseModel {
            status: self.status,
            headers: headers_model(self.headers@),
            body: self.body@,
        }
    }
}

/// The marker header every response carries: `X-Cache: HIT` or `X-Cache: MISS`.
pub open spec fn spec_marker(hit: bool) -> (Seq<char>, Seq<u8>) {
    ("X-Cache"@, if hit {
        "HIT".spec_bytes()
    } else {
        "MISS".spec_bytes()
    })
}

/// A cache hit: the stored status, headers and body, with the marker layered
/// on top of the stored headers.
pub open spec fn spec_hit_response(e: EntryModel) -> ResponseModel {
    ResponseModel { status: e.status, headers: e.headers.push(spec_marker(true)), body: e.body }
}

/// A relayed upstream response: status, headers and body verbatim, with the
/// miss marker layered on top.
pub open spec fn spec_relay_response(
    status: u16,
    headers: Seq<(Seq<char>, Seq<u8>)>,
    body: Seq<u8>,
) -> ResponseModel {
    ResponseModel { status, headers: headers.push(spec_marker(false)), body }
}

/// A locally synthesized error response: the fixed body, and only the miss
/// marker as a header.
pub open spec fn spec_error_response(status: u16, body: Seq<u8>) -> ResponseModel {
    ResponseModel { status, headers: seq![spec_marker(false)], body }
}

/// Status 500, sent when the target URL does not parse.
pub open spec fn spec_invalid_url_response() -> ResponseModel {
    spec_error_response(500, "Internal Server Error: Invalid URL".spec_bytes())
}

/// Status 502, sent when the upstream cannot be reached.
pub open spec fn spec_connect_failed_response() -> ResponseModel {
    spec_error_response(502, "Bad Gateway: Failed to connect to origin server".spec_bytes())
}

/// Status 502, sent when reading the upstream body fails midstream.
pub open spec fn spec_body_read_failed_response() -> ResponseModel {
    spec_error_response(502, "Bad Gateway: Failed to read response".spec_bytes())
}

/// The fully resolved upstream URL: the origin base followed by the
/// request's path and query, with `/` standing in for an absent path.
pub open spec fn spec_target_url(origin: Seq<char>, pq: Option<Seq<char>>) -> Seq<char> {
    match pq {
        Some(p) => origin + p,
        None => origin + "/"@,
    }
}

/// The view of an optional string.
pub open spec fn spec_opt_view(o: Option<String>) -> Option<Seq<char>> {
    match o {
        Some(s) => Some(s@),
        None => None,
    }
}

/// The cache key of a request: the resolved URL for a cacheable method,
/// no key at all otherwise.
pub open spec fn spec_cache_key(m: RequestMethod, url: Seq<char>) -> Option<Seq<char>> {
    if spec_is_cacheable(m) {
        Some(url)
    } else {
        None
    }
}

/// A lookup under an optional key: no key, no lookup.
pub open spec fn spec_lookup(st: StoreModel, key: Option<Seq<char>>, now: u64) -> Option<
    EntryModel,
> {
    match key {
        Some(k) => spec_get(st, k, now),
        None => None,
    }
}

/// The success range of HTTP status codes; only these are cached.
pub open spec fn spec_is_success(status: u16) -> bool {
    200 <= status < 300
}

/// Law: a request whose method is not cacheable derives no cache key, so the
/// pipeline neither consults the store for it nor writes it back.
pub proof fn lemma_non_cacheable_no_key(
    m: RequestMethod,
    url: Seq<char>,
    st: StoreModel,
    now: u64,
)
    requires
        !spec_is_cacheable(m),
    ensures
        spec_cache_key(m, url) is None,
        spec_lookup(st, spec_cache_key(m, url), now) is None,
{
}

#[verifier::external_type_specification]
#[verifier::external_body]
pub struct ExUri(hyper::Uri);

/// Whether a string is a well-formed target URL, in the sense of the parser
/// behind `hyper::Uri`.
pub uninterp spec fn uri_valid(s: Seq<char>) -> bool;

/// Relies on `hyper::Uri`'s `FromStr` implementation: whether a string
/// parses as a URI is a function of its characters alone.
#[verifier::external_body]
fn parse_uri(s: &String) -> (r: Option<hyper::Uri>)
    ensures
        r is Some <==> uri_valid(s@),
{
    s.as_str().parse::<hyper::Uri>().ok()
}

/// Copies a string literal's bytes into a vector.
fn str_to_bytes(s: &str) -> (r: Vec<u8>)
    ensures
        r@ == s.spec_bytes(),
{
    slice_to_vec(s.as_bytes())
}

/// Appends the `X-Cache` marker header to a header list.
fn push_marker(headers: &mut Vec<(String, Vec<u8>)>, hit: bool)
    ensures
        headers_model(final(headers)@) == headers_model(old(headers)@).push(spec_marker(hit)),
{
    let name = "X-Cache".to_owned();
    let value = if hit {
        str_to_bytes("HIT")
    } else {
        str_to_bytes("MISS")
    };
    headers.push((name, value));
    proof {
        assert(headers_model(headers@) =~= headers_model(old(headers)@).push(spec_marker(hit)));
    }
}

/// Everything the caller needs to forward one request upstream.
pub struct ForwardPlan {
    /// The parsed target, ready to address the outbound request.
    pub uri: hyper::Uri,
    /// The key under which a successful response is to be stored, if any.
    pub cache_key: Option<String>,
    /// The resolved target URL the URI was parsed from.
    pub target_url: String,
}

/// What `begin_request` decided: answer now, or forward upstream.
pub enum RequestOutcome {
    Respond(ProxyResponse),
    Forward(ForwardPlan),
}

/// What the upstream exchange came to.
pub enum ForwardOutcome {
    /// Headers and full body arrived.
    Success { status: u16, headers: Vec<(String, Vec<u8>)>, body: Vec<u8> },
    /// The upstream answered but its body could not be read to the end.
    BodyReadFailed,
    /// The upstream could not be reached at all.
    ConnectFailed,
}

/// The request-transformation pipeline.
pub struct ProxyServer;

impl ProxyServer {
    fn hit_response(entry: CacheEntry) -> (r: ProxyResponse)
        ensures
            r@ == spec_hit_response(entry@),
    {
        let ghost em = entry@;
        let CacheEntry { response_body, status_code, mut headers, .. } = entry;
        push_marker(&mut headers, true);
        let r = ProxyResponse { status: status_code, headers, body: response_body };
        proof {
            assert(r@ =~= spec_hit_response(em));
        }
        r
    }

    fn relay_response(status: u16, headers: Vec<(String, Vec<u8>)>, body: Vec<u8>) -> (r:
        ProxyResponse)
        ensures
            r@ == spec_relay_response(status, headers_model(headers@), body@),
    {
        let ghost hm = headers_model(headers@);
        let mut headers = headers;
        push_marker(&mut headers, false);
        let r = ProxyResponse { status, headers, body };
        proof {
            assert(r@ =~= spec_relay_response(status, hm, r.body@));
        }
        r
    }

    fn error_response(status: u16, body: &str) -> (r: ProxyResponse)
        ensures
            r@ == spec_error_response(status, body.spec_bytes()),
    {
        let mut headers: Vec<(String, Vec<u8>)> = Vec::new();
        push_marker(&mut headers, false);
        let r = ProxyResponse { status, headers, body: str_to_bytes(body) };
        proof {
            assert(headers_model(Seq::<(String, Vec<u8>)>::empty())
                =~= Seq::<(Seq<char>, Seq<u8>)>::empty());
            assert(r@ =~= spec_error_response(status, body.spec_bytes()));
        }
        r
    }

    /// Takes one inbound request as far as the cache and URL validation go.
    ///
    /// Serves a stored, unexpired entry for a cacheable request; rejects a
    /// target URL that does not parse with the fixed 500 response; and
    /// otherwise hands back the plan for the upstream exchange. The store is
    /// never written, and never read for a non-cacheable method.
    pub fn begin_request(
        cache: &MemoryCache,
        method: &RequestMethod,
        origin: &String,
        path_and_query: &Option<String>,
        now: u64,
    ) -> (r: RequestOutcome)
        ensures
            ({
                let url = spec_target_url(origin@, spec_opt_view(*path_and_query));
                let key = spec_cache_key(*method, url);
                match r {
                    RequestOutcome::Respond(resp) => match spec_lookup(cache@, key, now) {
                        Some(e) => resp@ == spec_hit_response(e),
                        None => !uri_valid(url) && resp@ == spec_invalid_url_response(),
                    },
                    RequestOutcome::Forward(plan) => {
                        &&& uri_valid(url)
                        &&& plan.target_url@ == url
                        &&& spec_opt_view(plan.cache_key) == key
                        &&& spec_lookup(cache@, key, now) is None
                    },
                }
            }),
    {
        let path: String = match path_and_query {
            Some(p) => p.clone(),
            None => "/".to_owned(),
        };
        let target_url: String = origin.clone().concat(path.as_str());
        let cache_key: Option<String> = if is_cacheable(method) {
            Some(target_url.clone())
        } else {
            None
        };
        match &cache_key {
            Some(k) => {
                match cache.get(k, now) {
                    Some(entry) => {
                        return RequestOutcome::Respond(Self::hit_response(entry));
                    },
                    None => {},
                }
            },
            None => {},
        }
        match parse_uri(&target_url) {
            Some(uri) => RequestOutcome::Forward(ForwardPlan { uri, cache_key, target_url }),
            None => RequestOutcome::Respond(Self::error_response(
                500,
                "Internal Server Error: Invalid URL",
            )),
        }
    }

    /// Turns the outcome of the upstream exchange into the client's response
    /// and, exactly when there is a cache key and the upstream status is in
    /// the success range, stores the response; the store is untouched on
    /// every other path. Failures map to the fixed 502 responses; upstream
    /// responses are relayed verbatim, whatever their status.
    pub fn finish_request(
        cache: &mut MemoryCache,
        cache_key: Option<String>,
        outcome: ForwardOutcome,
        now: u64,
    ) -> (r: ProxyResponse)
        ensures
            match outcome {
                ForwardOutcome::Success { status, headers, body } => {
                    &&& r@ == spec_relay_response(status, headers_model(headers@), body@)
                    &&& match cache_key {
                        Some(k) => if spec_is_success(status) {
                            final(cache)@ == spec_set(
                                old(cache)@,
                                k@,
                                EntryModel {
                                    body: body@,
                                    status: status,
                                    headers: headers_model(headers@),
                                    created_at: now,
                                },
                            )
                        } else {
                            final(cache)@ == old(cache)@
                        },
                        None => final(cache)@ == old(cache)@,
                    }
                },
                ForwardOutcome::BodyReadFailed => {
                    &&& r@ == spec_body_read_failed_response()
                    &&& final(cache)@ == old(cache)@
                },
                ForwardOutcome::ConnectFailed => {
                    &&& r@ == spec_connect_failed_response()
                    &&& final(cache)@ == old(cache)@
                },
            },
    {
        match outcome {
            ForwardOutcome::ConnectFailed => Self::error_response(
                502,
                "Bad Gateway: Failed to connect to origin server",
            ),
            ForwardOutcome::BodyReadFailed => Self::error_response(
                502,
                "Bad Gateway: Failed to read response",
            ),
            ForwardOutcome::Success { status, headers, body } => {
                if let Some(k) = cache_key {
                    if 200 <= status && status < 300 {
                        let entry = CacheEntry::new(
                            clone_bytes(&body),
                            status,
                            clone_headers(&headers),
                            now,
                        );
                        cache.set(k, entry);
                    }
                }
                Self::relay_response(status, headers, body)
            },
        }
    }
}

} // verus!
