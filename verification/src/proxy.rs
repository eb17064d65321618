//! The reverse proxy: where a request goes, what the upstream is sent, and what the client is
//! answered.
//!
//! The caller does the reading and the sending. It hands each outcome to the function that decides
//! what comes next: `proxy_handler` for the target, `forward` for the request's body, `answer_head`
//! for the upstream's answer, `answer` for the answer's body, and `reply` for how it all ended.

use vstd::prelude::*;
use vstd::std_specs::iter::*;
use vstd::string::*;
use axum::http::{HeaderMap, HeaderValue};
use crate::headers;
use crate::outside;
use crate::routes;
use crate::routes::RouteTable;
use crate::text;

verus! {

broadcast use vstd::string::group_string_axioms;

// ---------------------------------------------------------------------------
// Routes
// ---------------------------------------------------------------------------

/// An environment variable.
#[derive(Debug)]
pub enum Variable {
    Present(String),
    NotPresent,
    NotUnicode,
}

/// Why a text gives no routes.
#[derive(Debug)]
pub enum RoutesError {
    /// It is no JSON object of strings.
    Json(serde_json::Error),
}

/// The routes of `PROXY_ROUTES`, given what it reads as: none where it is no JSON object of
/// strings.
pub open spec fn env_routes(read: Option<Map<Seq<char>, Seq<char>>>) -> Map<Seq<char>, Seq<char>> {
    match read {
        Some(map) => map,
        None => Map::empty(),
    }
}

/// What a variable reads as.
pub open spec fn variable_reading(variable: Variable) -> Option<Map<Seq<char>, Seq<char>>> {
    match variable {
        Variable::Present(text) => outside::json_string_object(text@),
        Variable::NotPresent => None,
        Variable::NotUnicode => None,
    }
}

/// Reads routes from a JSON object such as `{"/api": "http://localhost:3000"}`.
pub fn parse_routes(json: &str) -> (table: Result<RouteTable, RoutesError>)
    ensures
        match table {
            Ok(parsed) => outside::json_string_object(json@) == Some(parsed@),
            Err(_) => outside::json_string_object(json@) is None,
        },
{
    match outside::read_json_string_object(json) {
        Ok(pairs) => Ok(route_table(pairs)),
        Err(error) => Err(RoutesError::Json(error)),
    }
}

/// The table of a list of pairs of prefix and upstream.
pub fn route_table(pairs: Vec<(String, String)>) -> (table: RouteTable)
    ensures
        table@ == outside::pairs_as_map(pairs@),
{
    let mut table = RouteTable::new();
    table.insert_pairs(pairs);
    assert(table@ =~= outside::pairs_as_map(pairs@));
    table
}

/// A path-based reverse proxy: its routes.
#[derive(Debug)]
pub struct ReverseProxy {
    routes: RouteTable,
}

impl View for ReverseProxy {
    type V = Map<Seq<char>, Seq<char>>;

    closed spec fn view(&self) -> Map<Seq<char>, Seq<char>> {
        self.routes@
    }
}

impl Default for ReverseProxy {
    fn default() -> (proxy: ReverseProxy)
        ensures
            proxy@ == Map::<Seq<char>, Seq<char>>::empty(),
    {
        ReverseProxy::new()
    }
}

impl ReverseProxy {
    /// A proxy without routes. Use `add_route`, `from_routes` or `from_env` to have some.
    pub fn new() -> (proxy: ReverseProxy)
        ensures
            proxy@ == Map::<Seq<char>, Seq<char>>::empty(),
    {
        ReverseProxy { routes: RouteTable::new() }
    }

    /// Registers a route: requests whose path starts with `prefix` are forwarded to `upstream`
    /// with the remainder of the path appended. It replaces the route that `prefix` has.
    pub fn add_route(&mut self, prefix: &str, upstream: &str)
        ensures
            final(self)@ == old(self)@.insert(prefix@, upstream@),
    {
        self.routes.insert(prefix.to_owned(), upstream.to_owned());
    }

    /// A proxy with the given routes.
    pub fn from_routes(routes: RouteTable) -> (proxy: ReverseProxy)
        ensures
            proxy@ == routes@,
    {
        ReverseProxy { routes }
    }

    /// A proxy with the routes of the `PROXY_ROUTES` variable; without routes where the variable
    /// is not set or cannot be read.
    pub fn from_env(variable: &Variable) -> (proxy: ReverseProxy)
        ensures
            proxy@ == env_routes(variable_reading(*variable)),
    {
        match variable {
            Variable::Present(text) => match parse_routes(text.as_str()) {
                Ok(table) => ReverseProxy::from_routes(table),
                Err(_) => ReverseProxy::new(),
            },
            Variable::NotPresent => ReverseProxy::new(),
            Variable::NotUnicode => ReverseProxy::new(),
        }
    }

    /// The routes.
    pub fn routes(&self) -> (table: &RouteTable)
        ensures
            table@ == self@,
    {
        &self.routes
    }

    /// Looks up the upstream of a path by longest-prefix matching.
    pub fn get_upstream(&self, path: &str) -> (upstream: Option<String>)
        ensures
            match upstream {
                Some(text) => routes::upstream_of(self@, path@) == Some(text@),
                None => routes::upstream_of(self@, path@) is None,
            },
    {
        match self.routes.route_for(path) {
            Some(route) => Some(route.upstream.clone()),
            None => None,
        }
    }
}

// ---------------------------------------------------------------------------
// Where a request goes
// ---------------------------------------------------------------------------

/// The length of the path in a request's target: what comes before the first question mark.
pub open spec fn path_len(target: Seq<char>) -> nat
    decreases target.len(),
{
    if target.len() == 0 || target[0] == '?' {
        0
    } else {
        1 + path_len(target.drop_first())
    }
}

/// The path in a request's target.
pub open spec fn path_of(target: Seq<char>) -> Seq<char> {
    target.take(path_len(target) as int)
}

/// The query in a request's target, with its question mark; empty where there is none.
pub open spec fn query_of(target: Seq<char>) -> Seq<char> {
    target.skip(path_len(target) as int)
}

/// What is left of a path behind a prefix, ready to follow an upstream's address: a slash is put
/// in front where the rest does not begin with one.
pub open spec fn remainder(path: Seq<char>, prefix: Seq<char>) -> Seq<char> {
    let rest = path.skip(prefix.len() as int);
    if rest.len() == 0 || rest[0] == '/' {
        rest
    } else {
        "/"@ + rest
    }
}

/// The address that a target has at an upstream: the upstream's, without the slashes at its end,
/// the remainder of the path, and the query as it came.
pub open spec fn upstream_address(upstream: Seq<char>, prefix: Seq<char>, target: Seq<char>) -> Seq<char> {
    text::without_end_slashes(upstream) + remainder(path_of(target), prefix) + query_of(target)
}

/// The path in a target is no longer than the target.
proof fn lemma_path_len(target: Seq<char>)
    ensures
        path_len(target) <= target.len(),
    decreases target.len(),
{
    if target.len() > 0 && target[0] != '?' {
        lemma_path_len(target.drop_first());
    }
}

/// The length of the path in a target, in characters.
fn path_length(target: &str) -> (length: usize)
    ensures
        length == path_len(target@),
        length <= target@.len(),
{
    let total: usize = target.unicode_len();
    let mut rest = target.chars();
    let mut k: usize = 0;
    assert(target@.skip(0) == target@);
    while k < total
        invariant
            k <= total,
            total == target@.len(),
            IteratorSpec::remaining(&rest) == target@.skip(k as int),
            path_len(target@) == k + path_len(target@.skip(k as int)),
        decreases total - k,
    {
        if let Some(c) = rest.next() {
            assert(c == target@[k as int]);
            if c == '?' {
                return k;
            }
        }
        assert(target@.skip(k as int).drop_first() == target@.skip(k + 1));
        k = k + 1;
    }
    k
}

/// The address at the upstream of a target whose path starts with `prefix`.
pub fn upstream_url(upstream: &str, prefix: &str, target: &str) -> (url: String)
    requires
        prefix@.is_prefix_of(path_of(target@)),
    ensures
        url@ == upstream_address(upstream@, prefix@, target@),
{
    let mut url = text::trim_end_slashes(upstream).to_owned();
    let length: usize = path_length(target);
    let rest = target.substring_char(prefix.unicode_len(), length);
    assert(rest@ == path_of(target@).skip(prefix@.len() as int));
    if !rest.is_empty() {
        if rest.get_char(0) != '/' {
            url.append("/");
        }
    }
    url.append(rest);
    let query = target.substring_char(length, target.unicode_len());
    assert(query@ == query_of(target@));
    url.append(query);
    assert(url@ =~= upstream_address(upstream@, prefix@, target@));
    url
}

/// A short answer of the proxy itself.
#[derive(Debug)]
pub struct TextReply {
    pub status: u16,
    pub body: String,
}

/// What becomes of a request by its target.
#[derive(Debug)]
pub enum Routed {
    /// It goes to an upstream, under this address.
    Forward { upstream: String, url: String },
    /// It is answered at once.
    Refused(TextReply),
}

/// What becomes of a request by its target, under a table of routes. The path alone decides where
/// it goes.
pub open spec fn is_routed(table: Map<Seq<char>, Seq<char>>, target: Seq<char>, routed: Routed) -> bool {
    match routes::route_of(table, path_of(target)) {
        Some(prefix) => routed matches Routed::Forward { upstream, url } && upstream@ == table[prefix]
            && url@ == upstream_address(table[prefix], prefix, target),
        None => routed matches Routed::Refused(answer) && answer.status == 404 && answer.body@
            == "Not Found"@,
    }
}

/// Decides where a request goes, by its target: its path and its query. It is refused with a 404
/// where no route applies to the path.
pub fn proxy_handler(proxy: &ReverseProxy, target: &str) -> (routed: Routed)
    ensures
        is_routed(proxy@, target@, routed),
{
    let path = target.substring_char(0, path_length(target));
    assert(path@ == path_of(target@));
    match proxy.routes.route_for(path) {
        Some(route) => {
            let upstream = route.upstream.clone();
            let url = upstream_url(upstream.as_str(), route.prefix.as_str(), target);
            Routed::Forward { upstream, url }
        },
        None => Routed::Refused(TextReply { status: 404, body: "Not Found".to_owned() }),
    }
}

// ---------------------------------------------------------------------------
// What the upstream is sent
// ---------------------------------------------------------------------------

/// Why a request could not be served through an upstream.
#[derive(Debug)]
pub enum ForwardError {
    /// The request's body could not be read.
    BodyUnread(String),
    /// The upstream could not be asked.
    UpstreamFailed(String),
    /// The upstream's status is no status code.
    InvalidStatus,
    /// The upstream's answer could not be read.
    AnswerUnread(String),
    /// The upstream's answer has more headers than a header map takes.
    TooManyHeaders,
}

impl ForwardError {
    /// The text of the error.
    pub open spec fn text(self) -> Seq<char> {
        match self {
            ForwardError::BodyUnread(cause) => "Failed to read request body: "@ + cause@,
            ForwardError::UpstreamFailed(cause) => "Upstream request failed: "@ + cause@,
            ForwardError::InvalidStatus => "Invalid upstream status: invalid status code"@,
            ForwardError::AnswerUnread(cause) => "Failed to read upstream response: "@ + cause@,
            ForwardError::TooManyHeaders => "size overflows MAX_SIZE"@,
        }
    }

    /// The text of the error.
    pub fn message(&self) -> (message: String)
        ensures
            message@ == self.text(),
    {
        match self {
            ForwardError::BodyUnread(cause) => {
                let mut message = "Failed to read request body: ".to_owned();
                message.append(cause.as_str());
                message
            },
            ForwardError::UpstreamFailed(cause) => {
                let mut message = "Upstream request failed: ".to_owned();
                message.append(cause.as_str());
                message
            },
            ForwardError::InvalidStatus => "Invalid upstream status: invalid status code".to_owned(),
            ForwardError::AnswerUnread(cause) => {
                let mut message = "Failed to read upstream response: ".to_owned();
                message.append(cause.as_str());
                message
            },
            ForwardError::TooManyHeaders => "size overflows MAX_SIZE".to_owned(),
        }
    }
}

/// A request that goes to an upstream, before its body is read.
#[derive(Debug)]
pub struct RequestHead {
    pub method: String,
    /// The address at the upstream.
    pub url: String,
    pub headers: HeaderMap<HeaderValue>,
    /// The address of the client, where it is known.
    pub client_ip: Option<String>,
}

/// A request as the upstream is sent it.
#[derive(Debug)]
pub struct UpstreamRequest {
    pub method: String,
    pub url: String,
    /// The client's headers that are forwarded.
    pub headers: HeaderMap<HeaderValue>,
    /// The headers that are added to them, by name and value.
    pub forwarded: Vec<(String, String)>,
    /// The body, where it is not empty.
    pub body: Option<Vec<u8>>,
}

/// The client's address as the upstream is told it.
pub open spec fn shown_ip(client_ip: Option<String>) -> Seq<char> {
    match client_ip {
        Some(ip) => ip@,
        None => "unknown"@,
    }
}

/// The texts of a list of pairs.
pub open spec fn pair_texts(pairs: Seq<(String, String)>) -> Seq<(Seq<char>, Seq<char>)> {
    pairs.map_values(|pair: (String, String)| (pair.0@, pair.1@))
}

/// The headers that tell the upstream of the client.
pub open spec fn client_headers(client_ip: Option<String>) -> Seq<(Seq<char>, Seq<char>)> {
    seq![
        ("X-Forwarded-For"@, shown_ip(client_ip)),
        ("X-Forwarded-Proto"@, "https"@),
        ("X-Real-IP"@, shown_ip(client_ip)),
    ]
}

/// The bytes of a body that is left out where it is empty.
pub open spec fn body_bytes(body: Option<Vec<u8>>) -> Seq<u8> {
    match body {
        Some(bytes) => bytes@,
        None => Seq::empty(),
    }
}

/// What the upstream is sent for a request, by how the reading of its body ended.
pub open spec fn is_forwarded(
    head: RequestHead,
    body: Result<Vec<u8>, String>,
    result: Result<UpstreamRequest, ForwardError>,
) -> bool {
    match body {
        Ok(bytes) => result matches Ok(request) && {
            &&& request.method@ == head.method@
            &&& request.url@ == head.url@
            &&& outside::header_values(request.headers) == headers::end_to_end(
                outside::header_values(head.headers),
            )
            &&& pair_texts(request.forwarded@) == client_headers(head.client_ip)
            &&& body_bytes(request.body) == bytes@
            &&& request.body is Some <==> bytes@.len() > 0
        },
        Err(cause) => result == Err::<UpstreamRequest, ForwardError>(ForwardError::BodyUnread(cause)),
    }
}

/// Decides what the upstream is sent once the request's body has been read: the method, the
/// address and the body as they are, the headers without the hop-by-hop ones, and the headers
/// that name the client.
pub fn forward(head: RequestHead, body: Result<Vec<u8>, String>) -> (result: Result<
    UpstreamRequest,
    ForwardError,
>)
    ensures
        is_forwarded(head, body, result),
{
    let bytes = match body {
        Ok(bytes) => bytes,
        Err(cause) => {
            return Err(ForwardError::BodyUnread(cause));
        },
    };
    let filtered = headers::filter_headers(&head.headers);
    let ghost client_ip = head.client_ip;
    let ip = match head.client_ip {
        Some(ip) => ip,
        None => "unknown".to_owned(),
    };
    let mut forwarded: Vec<(String, String)> = Vec::new();
    forwarded.push(("X-Forwarded-For".to_owned(), ip.clone()));
    forwarded.push(("X-Forwarded-Proto".to_owned(), "https".to_owned()));
    forwarded.push(("X-Real-IP".to_owned(), ip));
    assert(pair_texts(forwarded@) =~= client_headers(client_ip));
    let body = if bytes.len() == 0 {
        None
    } else {
        Some(bytes)
    };
    assert(body_bytes(body) =~= bytes@);
    Ok(UpstreamRequest { method: head.method, url: head.url, headers: filtered, forwarded, body })
}

// ---------------------------------------------------------------------------
// What the client is answered
// ---------------------------------------------------------------------------

/// An answer before its body is read: of the upstream, or as the client is given it.
#[derive(Debug)]
pub struct AnswerHead {
    pub status: u16,
    pub headers: HeaderMap<HeaderValue>,
}

/// An answer of the upstream as the client is given it.
#[derive(Debug)]
pub struct Answer {
    pub status: u16,
    pub headers: HeaderMap<HeaderValue>,
    pub body: Vec<u8>,
}

/// The client's part of an upstream's answer, by how the request to the upstream ended.
pub open spec fn is_answer_head(
    upstream: Result<AnswerHead, String>,
    result: Result<AnswerHead, ForwardError>,
) -> bool {
    match upstream {
        Ok(head) => if 100 <= head.status <= 999 {
            match result {
                Ok(shown) => {
                    &&& shown.status == head.status
                    &&& outside::header_values(shown.headers) == headers::end_to_end_last(
                        outside::header_values(head.headers),
                    )
                },
                Err(error) => {
                    &&& error == ForwardError::TooManyHeaders
                    &&& headers::end_to_end(outside::header_values(head.headers)).dom().len()
                        > outside::ROOMY
                    &&& outside::header_values(head.headers).dom().len() > outside::ROOMY
                },
            }
        } else {
            result == Err::<AnswerHead, ForwardError>(ForwardError::InvalidStatus)
        },
        Err(cause) => result == Err::<AnswerHead, ForwardError>(ForwardError::UpstreamFailed(cause)),
    }
}

/// Decides the status and the headers that the client is answered, once the upstream was asked.
pub fn answer_head(upstream: Result<AnswerHead, String>) -> (result: Result<AnswerHead, ForwardError>)
    ensures
        is_answer_head(upstream, result),
{
    let head = match upstream {
        Ok(head) => head,
        Err(cause) => {
            return Err(ForwardError::UpstreamFailed(cause));
        },
    };
    if !outside::is_status_code(head.status) {
        return Err(ForwardError::InvalidStatus);
    }
    match headers::relay_headers(&head.headers) {
        Some(kept) => Ok(AnswerHead { status: head.status, headers: kept }),
        None => Err(ForwardError::TooManyHeaders),
    }
}

/// The client's answer, by how the reading of the upstream's answer ended.
pub open spec fn is_answer(
    head: AnswerHead,
    body: Result<Vec<u8>, String>,
    result: Result<Answer, ForwardError>,
) -> bool {
    match body {
        Ok(bytes) => result matches Ok(shown) && {
            &&& shown.status == head.status
            &&& outside::header_values(shown.headers) == outside::header_values(head.headers)
            &&& shown.body@ == bytes@
        },
        Err(cause) => result == Err::<Answer, ForwardError>(ForwardError::AnswerUnread(cause)),
    }
}

/// Puts the client's answer together, once the body of the upstream's answer has been read.
pub fn answer(head: AnswerHead, body: Result<Vec<u8>, String>) -> (result: Result<Answer, ForwardError>)
    ensures
        is_answer(head, body, result),
{
    match body {
        Ok(bytes) => Ok(Answer { status: head.status, headers: head.headers, body: bytes }),
        Err(cause) => Err(ForwardError::AnswerUnread(cause)),
    }
}

/// What a client is sent.
#[derive(Debug)]
pub enum Reply {
    /// The upstream's answer.
    Relayed(Answer),
    /// A short answer of the proxy itself.
    Text(TextReply),
}

/// What a client is sent, by how forwarding its request ended.
pub open spec fn is_reply(result: Result<Answer, ForwardError>, reply: Reply) -> bool {
    match result {
        Ok(shown) => reply == Reply::Relayed(shown),
        Err(error) => reply matches Reply::Text(answer) && answer.status == 502 && answer.body@
            == "Bad Gateway: "@ + error.text(),
    }
}

/// Decides what the client is sent: the upstream's answer, or a 502 that says what went wrong.
pub fn reply(result: Result<Answer, ForwardError>) -> (reply: Reply)
    ensures
        is_reply(result, reply),
{
    match result {
        Ok(shown) => Reply::Relayed(shown),
        Err(error) => {
            let mut body = "Bad Gateway: ".to_owned();
            body.append(error.message().as_str());
            Reply::Text(TextReply { status: 502, body })
        },
    }
}

// ---------------------------------------------------------------------------
// Laws
// ---------------------------------------------------------------------------

/// A target is its path and its query; the path holds no question mark, and a query begins with
/// one.
pub proof fn law_path_and_query(target: Seq<char>)
    ensures
        path_of(target) + query_of(target) == target,
        !path_of(target).contains('?'),
        query_of(target).len() > 0 ==> query_of(target)[0] == '?',
    decreases target.len(),
{
    lemma_path_len(target);
    assert(path_of(target) + query_of(target) =~= target);
    if target.len() > 0 && target[0] != '?' {
        let tail = target.drop_first();
        law_path_and_query(tail);
        lemma_path_len(tail);
        assert(query_of(target) =~= query_of(tail));
        assert forall|i: int| 0 <= i < path_of(target).len() implies path_of(target)[i] != '?' by {
            if i > 0 {
                assert(path_of(tail)[i - 1] == path_of(target)[i]);
                assert(path_of(tail).contains(path_of(tail)[i - 1]));
            }
        }
    }
}

/// A request whose path no route applies to is answered with a 404, and no other request is.
pub proof fn law_unrouted_is_not_found(table: Map<Seq<char>, Seq<char>>, target: Seq<char>, routed: Routed)
    requires
        is_routed(table, target, routed),
    ensures
        routed is Refused <==> forall|prefix: Seq<char>| !#[trigger]
            routes::route_applies(table, path_of(target), prefix),
        routed matches Routed::Refused(answer) ==> answer.status == 404 && answer.body@ == "Not Found"@,
{
    routes::law_unrouted_paths(table, path_of(target));
}

/// A request goes to the upstream that its path looks up, and to no other.
pub proof fn law_forwarded_to_its_upstream(table: Map<Seq<char>, Seq<char>>, target: Seq<char>, routed: Routed)
    requires
        is_routed(table, target, routed),
    ensures
        match routed {
            Routed::Forward { upstream, .. } => routes::upstream_of(table, path_of(target)) == Some(
                upstream@,
            ),
            Routed::Refused(_) => routes::upstream_of(table, path_of(target)) is None,
        },
{
}

/// A request goes to the upstream of the longest prefix that its path starts with, with the
/// remainder of the path appended, and the query behind it. The remainder is appended as it is
/// where it is empty or begins with a slash, and else behind a slash, without which it would run
/// into the upstream's host or port.
pub proof fn law_remainder_appended(
    table: Map<Seq<char>, Seq<char>>,
    target: Seq<char>,
    prefix: Seq<char>,
    routed: Routed,
)
    requires
        is_routed(table, target, routed),
        routes::is_longest_route(table, path_of(target), prefix),
    ensures
        routed matches Routed::Forward { upstream, url } && upstream@ == table[prefix] && ({
            let base = text::without_end_slashes(table[prefix]);
            let rest = path_of(target).skip(prefix.len() as int);
            if rest.len() == 0 || rest[0] == '/' {
                url@ == base + rest + query_of(target)
            } else {
                url@ == base + "/"@ + rest + query_of(target)
            }
        }),
{
    routes::law_longest_prefix_wins(table, path_of(target), prefix);
    let base = text::without_end_slashes(table[prefix]);
    let rest = path_of(target).skip(prefix.len() as int);
    assert(base + ("/"@ + rest) =~= base + "/"@ + rest);
}

/// The query of a request that is forwarded reaches the upstream as it came.
pub proof fn law_query_reaches_upstream(table: Map<Seq<char>, Seq<char>>, target: Seq<char>, routed: Routed)
    requires
        is_routed(table, target, routed),
    ensures
        routed matches Routed::Forward { url, .. } ==> query_of(target).is_suffix_of(url@),
{
    if let Routed::Forward { url, .. } = routed {
        let prefix = routes::route_of(table, path_of(target))->0;
        let front = text::without_end_slashes(table[prefix]) + remainder(path_of(target), prefix);
        assert(url@ == front + query_of(target));
        assert(url@.subrange(url@.len() - query_of(target).len(), url@.len() as int) =~= query_of(target));
    }
}

/// The query has no say in where a request goes: requests of one path go to the same upstream, or
/// are refused alike.
pub proof fn law_query_does_not_route(
    table: Map<Seq<char>, Seq<char>>,
    a: Seq<char>,
    b: Seq<char>,
    routed_a: Routed,
    routed_b: Routed,
)
    requires
        path_of(a) == path_of(b),
        is_routed(table, a, routed_a),
        is_routed(table, b, routed_b),
    ensures
        match (routed_a, routed_b) {
            (Routed::Forward { upstream: to_a, .. }, Routed::Forward { upstream: to_b, .. }) => to_a@
                == to_b@,
            (Routed::Refused(_), Routed::Refused(_)) => true,
            _ => false,
        },
{
}

/// The address at an upstream that ends in slashes is the one at the same upstream without them,
/// however many they are.
pub proof fn law_end_slash_of_upstream(upstream: Seq<char>, slashes: nat, prefix: Seq<char>, target: Seq<char>)
    ensures
        upstream_address(upstream + Seq::new(slashes, |i: int| '/'), prefix, target) == upstream_address(
            upstream,
            prefix,
            target,
        ),
    decreases slashes,
{
    let ended = upstream + Seq::new(slashes, |i: int| '/');
    if slashes == 0 {
        assert(ended =~= upstream);
    } else {
        let fewer = (slashes - 1) as nat;
        law_end_slash_of_upstream(upstream, fewer, prefix, target);
        assert(ended.drop_last() =~= upstream + Seq::new(fewer, |i: int| '/'));
        assert(ended.last() == '/');
    }
}

/// A route that was added serves the paths that start with its prefix and with no longer one.
pub proof fn law_added_route_serves(
    table: Map<Seq<char>, Seq<char>>,
    prefix: Seq<char>,
    upstream: Seq<char>,
    path: Seq<char>,
)
    requires
        prefix.is_prefix_of(path),
        forall|other: Seq<char>| #[trigger]
            routes::route_applies(table, path, other) ==> other.len() <= prefix.len(),
    ensures
        routes::upstream_of(table.insert(prefix, upstream), path) == Some(upstream),
{
    let added = table.insert(prefix, upstream);
    assert(routes::route_applies(added, path, prefix));
    assert forall|other: Seq<char>| #[trigger] routes::route_applies(added, path, other) implies other.len()
        <= prefix.len() by {
        if other != prefix {
            assert(routes::route_applies(table, path, other));
        }
    }
    routes::law_longest_prefix_wins(added, path, prefix);
}

/// A route that was added changes nothing for the paths that do not start with its prefix, nor for
/// those that start with a longer prefix of the table.
pub proof fn law_added_route_leaves_others(
    table: Map<Seq<char>, Seq<char>>,
    prefix: Seq<char>,
    upstream: Seq<char>,
    path: Seq<char>,
)
    requires
        !prefix.is_prefix_of(path) || exists|longer: Seq<char>| #[trigger]
            routes::route_applies(table, path, longer) && longer.len() > prefix.len(),
    ensures
        routes::route_of(table.insert(prefix, upstream), path) == routes::route_of(table, path),
        routes::upstream_of(table.insert(prefix, upstream), path) == routes::upstream_of(table, path),
{
    let added = table.insert(prefix, upstream);
    assert forall|other: Seq<char>| #[trigger] routes::route_applies(added, path, other) && other
        != prefix implies routes::route_applies(table, path, other) by {}
    assert forall|other: Seq<char>| #[trigger]
        routes::route_applies(table, path, other) implies routes::route_applies(added, path, other) by {}
    match routes::route_of(table, path) {
        Some(taken) => {
            routes::law_longest_prefix_wins(table, path, taken);
            assert(routes::route_applies(table, path, taken));
            assert(taken != prefix);
            assert(routes::is_longest_route(added, path, taken));
            routes::law_longest_prefix_wins(added, path, taken);
        },
        None => {
            routes::law_unrouted_paths(table, path);
            assert(!routes::route_applies(added, path, prefix));
            routes::law_unrouted_paths(added, path);
        },
    }
}

/// An upstream's answer that could be read reaches the client with its status and its body, and
/// with its headers but for the hop-by-hop ones and the repeated values.
pub proof fn law_answer_is_relayed(
    upstream: AnswerHead,
    head: AnswerHead,
    bytes: Vec<u8>,
    result: Result<Answer, ForwardError>,
    reply: Reply,
)
    requires
        is_answer_head(Ok(upstream), Ok(head)),
        is_answer(head, Ok(bytes), result),
        is_reply(result, reply),
    ensures
        reply matches Reply::Relayed(shown) && {
            &&& shown.status == upstream.status
            &&& shown.body@ == bytes@
            &&& outside::header_values(shown.headers) == headers::end_to_end_last(
                outside::header_values(upstream.headers),
            )
        },
{
}

/// A request whose body cannot be read is answered with a 502 that says so.
pub proof fn law_unread_body_is_bad_gateway(
    head: RequestHead,
    cause: String,
    result: Result<UpstreamRequest, ForwardError>,
    reply: Reply,
)
    requires
        is_forwarded(head, Err(cause), result),
        is_reply(Err(result->Err_0), reply),
    ensures
        result is Err,
        reply matches Reply::Text(answer) && answer.status == 502 && answer.body@ == "Bad Gateway: "@ + (
        "Failed to read request body: "@ + cause@),
{
}

/// A request that fails at the upstream is answered with a 502 that says so.
pub proof fn law_failed_upstream_is_bad_gateway(
    cause: String,
    result: Result<AnswerHead, ForwardError>,
    reply: Reply,
)
    requires
        is_answer_head(Err(cause), result),
        is_reply(Err(result->Err_0), reply),
    ensures
        result is Err,
        reply matches Reply::Text(answer) && answer.status == 502 && answer.body@ == "Bad Gateway: "@ + (
        "Upstream request failed: "@ + cause@),
{
}

/// A request whose answer cannot be read is answered with a 502 that says so.
pub proof fn law_unread_answer_is_bad_gateway(
    head: AnswerHead,
    cause: String,
    result: Result<Answer, ForwardError>,
    reply: Reply,
)
    requires
        is_answer(head, Err(cause), result),
        is_reply(Err(result->Err_0), reply),
    ensures
        result is Err,
        reply matches Reply::Text(answer) && answer.status == 502 && answer.body@ == "Bad Gateway: "@ + (
        "Failed to read upstream response: "@ + cause@),
{
}

/// The path and the query that a target is put together from are those that it is taken apart into.
proof fn lemma_taken_apart(path: Seq<char>, query: Seq<char>)
    requires
        !path.contains('?'),
        query.len() == 0 || query[0] == '?',
    ensures
        path_of(path + query) == path,
        query_of(path + query) == query,
{
    lemma_length_of_path(path, query);
    assert((path + query).take(path.len() as int) =~= path);
    assert((path + query).skip(path.len() as int) =~= query);
}

proof fn lemma_length_of_path(path: Seq<char>, query: Seq<char>)
    requires
        !path.contains('?'),
        query.len() == 0 || query[0] == '?',
    ensures
        path_len(path + query) == path.len(),
    decreases path.len(),
{
    if path.len() == 0 {
        assert(path + query =~= query);
    } else {
        assert(path.contains(path[0]));
        assert forall|i: int| 0 <= i < path.drop_first().len() implies path.drop_first()[i] != '?' by {
            assert(path.contains(path[i + 1]));
        }
        lemma_length_of_path(path.drop_first(), query);
        assert((path + query).drop_first() =~= path.drop_first() + query);
    }
}

/// Behind an upstream's address, cut of its end slashes, comes what the path has behind the prefix,
/// and then the query. A slash is put between where the address would run into the path.
pub proof fn law_address_at_upstream(
    base: Seq<char>,
    slashes: nat,
    prefix: Seq<char>,
    rest: Seq<char>,
    query: Seq<char>,
)
    requires
        base.len() == 0 || base.last() != '/',
        !(prefix + rest).contains('?'),
        query.len() == 0 || query[0] == '?',
    ensures
        upstream_address(base + Seq::new(slashes, |i: int| '/'), prefix, prefix + rest + query) == (if rest.len()
            == 0 || rest[0] == '/' {
            base + rest + query
        } else {
            base + seq!['/'] + rest + query
        }),
{
    reveal_strlit("/");
    text::law_any_end_slashes_cut(base, slashes);
    lemma_taken_apart(prefix + rest, query);
    assert((prefix + rest).skip(prefix.len() as int) =~= rest);
    assert("/"@ =~= seq!['/']);
    assert(base + (seq!['/'] + rest) =~= base + seq!['/'] + rest);
}

/// A request goes to the upstream of a prefix of the table that its path starts with, no longer such
/// prefix being there: to the address that the upstream, what the path has behind the prefix, and
/// the query make.
pub proof fn law_where_a_request_goes(
    table: Map<Seq<char>, Seq<char>>,
    base: Seq<char>,
    slashes: nat,
    prefix: Seq<char>,
    rest: Seq<char>,
    query: Seq<char>,
    routed: Routed,
)
    requires
        is_routed(table, prefix + rest + query, routed),
        base.len() == 0 || base.last() != '/',
        !(prefix + rest).contains('?'),
        query.len() == 0 || query[0] == '?',
        table.contains_key(prefix),
        table[prefix] == base + Seq::new(slashes, |i: int| '/'),
        forall|other: Seq<char>| #[trigger]
            table.contains_key(other) && other.is_prefix_of(prefix + rest) ==> other.len() <= prefix.len(),
    ensures
        routed matches Routed::Forward { upstream, url } && {
            &&& upstream@ == table[prefix]
            &&& rest.len() == 0 || rest[0] == '/' ==> url@ == base + rest + query
            &&& rest.len() > 0 && rest[0] != '/' ==> url@ == base + seq!['/'] + rest + query
        },
{
    lemma_taken_apart(prefix + rest, query);
    assert(prefix =~= (prefix + rest).subrange(0, prefix.len() as int));
    routes::law_route_by_prefix(table, prefix + rest, prefix);
    law_address_at_upstream(base, slashes, prefix, rest, query);
}

/// A request whose path starts with no prefix of the table is answered with a 404.
pub proof fn law_when_a_request_is_refused(
    table: Map<Seq<char>, Seq<char>>,
    path: Seq<char>,
    query: Seq<char>,
    routed: Routed,
)
    requires
        is_routed(table, path + query, routed),
        !path.contains('?'),
        query.len() == 0 || query[0] == '?',
        forall|prefix: Seq<char>| #[trigger] table.contains_key(prefix) ==> !prefix.is_prefix_of(path),
    ensures
        routed matches Routed::Refused(answer) && answer.status == 404 && answer.body@ == "Not Found"@,
{
    lemma_taken_apart(path, query);
    routes::law_no_route_by_prefix(table, path);
}

/// The routes of a variable are those of the JSON object that it holds; a variable that is not set,
/// is no text, or holds no such object gives none.
pub proof fn law_routes_of_a_variable(variable: Variable)
    ensures
        variable matches Variable::Present(text) ==> outside::json_string_object(text@) matches Some(object)
            ==> env_routes(variable_reading(variable)) == object,
        variable matches Variable::Present(text) ==> outside::json_string_object(text@) is None
            ==> env_routes(variable_reading(variable)) == Map::<Seq<char>, Seq<char>>::empty(),
        !(variable is Present) ==> env_routes(variable_reading(variable)) == Map::<
            Seq<char>,
            Seq<char>,
        >::empty(),
{
}

/// A request whose body was read reaches the upstream whatever its method: with that method, to the
/// given address, and with the body byte for byte, none being attached only where it is empty.
pub proof fn law_request_reaches_upstream(
    head: RequestHead,
    bytes: Vec<u8>,
    result: Result<UpstreamRequest, ForwardError>,
)
    requires
        is_forwarded(head, Ok(bytes), result),
    ensures
        result matches Ok(request) && {
            &&& request.method@ == head.method@
            &&& request.url@ == head.url@
            &&& request.body matches Some(sent) ==> sent@ == bytes@
            &&& request.body is None ==> bytes@.len() == 0
            &&& bytes@.len() == 0 ==> request.body is None
        },
{
}

/// The upstream is told of the client by three headers and no more: its address, or that it is not
/// known, twice, and that it came by HTTPS.
pub proof fn law_upstream_is_told_of_client(
    head: RequestHead,
    bytes: Vec<u8>,
    result: Result<UpstreamRequest, ForwardError>,
)
    requires
        is_forwarded(head, Ok(bytes), result),
    ensures
        result matches Ok(request) && {
            let told = request.forwarded@;
            &&& told.len() == 3
            &&& told[0].0@ == "X-Forwarded-For"@
            &&& told[1].0@ == "X-Forwarded-Proto"@
            &&& told[2].0@ == "X-Real-IP"@
            &&& told[1].1@ == "https"@
            &&& head.client_ip matches Some(ip) ==> told[0].1@ == ip@ && told[2].1@ == ip@
            &&& head.client_ip is None ==> told[0].1@ == "unknown"@ && told[2].1@ == "unknown"@
        },
{
    let told = result->Ok_0.forwarded@;
    let texts = pair_texts(told);
    let expected = client_headers(head.client_ip);
    assert(texts.len() == 3 && texts[0] == expected[0] && texts[1] == expected[1] && texts[2]
        == expected[2]);
    assert(texts[0] == (told[0].0@, told[0].1@));
    assert(texts[1] == (told[1].0@, told[1].1@));
    assert(texts[2] == (told[2].0@, told[2].1@));
}

/// A client's header reaches the upstream with all its values unless its name is one of those that
/// are between two hops or the `Connection` header lists it; one that does not reach it was one of
/// these, or was not there.
pub proof fn law_headers_reach_upstream(
    head: RequestHead,
    bytes: Vec<u8>,
    request: UpstreamRequest,
    name: Seq<char>,
)
    requires
        is_forwarded(head, Ok(bytes), Ok(request)),
    ensures
        ({
            let came = outside::header_values(head.headers);
            let sent = outside::header_values(request.headers);
            let fixed = {
                ||| name == "connection"@
                ||| name == "keep-alive"@
                ||| name == "proxy-connection"@
                ||| name == "transfer-encoding"@
                ||| name == "host"@
                ||| name == "proxy-authenticate"@
                ||| name == "proxy-authorization"@
                ||| name == "te"@
                ||| name == "trailer"@
                ||| name == "upgrade"@
            };
            let listed = came.contains_key("connection"@) && headers::is_header_name(name) && exists|i: int|
                0 <= i < came["connection"@].len() && headers::lists_name(
                    (#[trigger] came["connection"@][i]).bytes,
                    name,
                );
            &&& sent.contains_key(name) <==> came.contains_key(name) && !fixed && !listed
            &&& sent.contains_key(name) ==> sent[name] == came[name]
        }),
{
    lemma_passed_on(outside::header_values(head.headers), name);
}

/// An upstream's header reaches the client with its last value unless its name is one of those that
/// are between two hops or the `Connection` header lists it; one that does not reach it was one of
/// these, or was not there.
pub proof fn law_headers_reach_client(upstream: AnswerHead, shown: AnswerHead, name: Seq<char>)
    requires
        is_answer_head(Ok(upstream), Ok(shown)),
    ensures
        ({
            let came = outside::header_values(upstream.headers);
            let sent = outside::header_values(shown.headers);
            let fixed = {
                ||| name == "connection"@
                ||| name == "keep-alive"@
                ||| name == "proxy-connection"@
                ||| name == "transfer-encoding"@
                ||| name == "host"@
                ||| name == "proxy-authenticate"@
                ||| name == "proxy-authorization"@
                ||| name == "te"@
                ||| name == "trailer"@
                ||| name == "upgrade"@
            };
            let listed = came.contains_key("connection"@) && headers::is_header_name(name) && exists|i: int|
                0 <= i < came["connection"@].len() && headers::lists_name(
                    (#[trigger] came["connection"@][i]).bytes,
                    name,
                );
            &&& sent.contains_key(name) <==> came.contains_key(name) && !fixed && !listed
            &&& sent.contains_key(name) ==> sent[name] == seq![came[name].last()]
        }),
{
    lemma_passed_on(outside::header_values(upstream.headers), name);
}

/// A header is hop-by-hop by its name or by a value of the `Connection` header.
proof fn lemma_passed_on(came: Map<Seq<char>, Seq<outside::ValueView>>, name: Seq<char>)
    ensures
        headers::is_hop_by_hop_in(came, name) <==> {
            ||| headers::is_hop_by_hop_name(name)
            ||| came.contains_key("connection"@) && headers::is_header_name(name) && exists|i: int|
                0 <= i < came["connection"@].len() && headers::lists_name(
                    (#[trigger] came["connection"@][i]).bytes,
                    name,
                )
        },
{
    let options = headers::connection_options(came);
    if came.contains_key("connection"@) {
        assert forall|i: int| 0 <= i < options.len() implies #[trigger] options[i]
            == came["connection"@][i].bytes by {}
        if headers::is_listed(options, name) {
            let i = choose|i: int| 0 <= i < options.len() && headers::lists_name(#[trigger] options[i], name);
            assert(headers::lists_name(came["connection"@][i].bytes, name));
        }
        if exists|i: int|
            0 <= i < came["connection"@].len() && headers::lists_name(
                (#[trigger] came["connection"@][i]).bytes,
                name,
            ) {
            let i = choose|i: int|
                0 <= i < came["connection"@].len() && headers::lists_name(
                    (#[trigger] came["connection"@][i]).bytes,
                    name,
                );
            assert(headers::lists_name(options[i], name));
        }
    }
}

/// An upstream's answer with any status from 100 to 999 comes through with that status, as long as it
/// has no more headers than a header map is sure to take; another status is an error, and so is an
/// upstream that could not be asked, each with an error of its own.
pub proof fn law_answer_comes_through(
    upstream: Result<AnswerHead, String>,
    result: Result<AnswerHead, ForwardError>,
)
    requires
        is_answer_head(upstream, result),
    ensures
        upstream matches Ok(head) ==> 100 <= head.status <= 999 && outside::header_values(
            head.headers,
        ).dom().len() <= 6553 ==> (result matches Ok(shown) && shown.status == head.status),
        upstream matches Ok(head) ==> (result matches Ok(shown) ==> shown.status == head.status && 100
            <= shown.status <= 999),
        upstream matches Ok(head) ==> !(100 <= head.status <= 999) ==> result == Err::<
            AnswerHead,
            ForwardError,
        >(ForwardError::InvalidStatus),
        upstream matches Ok(head) ==> 100 <= head.status <= 999 ==> result is Ok || result == Err::<
            AnswerHead,
            ForwardError,
        >(ForwardError::TooManyHeaders),
        upstream matches Err(cause) ==> result == Err::<AnswerHead, ForwardError>(
            ForwardError::UpstreamFailed(cause),
        ),
{
}

/// An answer whose body was read goes to the client with it, byte for byte, and with the status and
/// the headers that were decided on; one whose body was not read is an error.
pub proof fn law_answer_keeps_its_body(
    head: AnswerHead,
    body: Result<Vec<u8>, String>,
    result: Result<Answer, ForwardError>,
)
    requires
        is_answer(head, body, result),
    ensures
        body matches Ok(bytes) ==> (result matches Ok(shown) && shown.body@ == bytes@ && shown.status
            == head.status && outside::header_values(shown.headers) == outside::header_values(head.headers)),
        body matches Err(cause) ==> result == Err::<Answer, ForwardError>(
            ForwardError::AnswerUnread(cause),
        ),
{
}

/// A client is sent the answer that came through, or a 502 that names what went wrong, in words of its
/// own for each way in which it can.
pub proof fn law_what_a_client_is_sent(result: Result<Answer, ForwardError>, reply: Reply)
    requires
        is_reply(result, reply),
    ensures
        result matches Ok(shown) ==> reply == Reply::Relayed(shown),
        result matches Err(error) ==> (reply matches Reply::Text(answer) && answer.status == 502
            && answer.body@ == "Bad Gateway: "@ + match error {
            ForwardError::BodyUnread(cause) => "Failed to read request body: "@ + cause@,
            ForwardError::UpstreamFailed(cause) => "Upstream request failed: "@ + cause@,
            ForwardError::InvalidStatus => "Invalid upstream status: invalid status code"@,
            ForwardError::AnswerUnread(cause) => "Failed to read upstream response: "@ + cause@,
            ForwardError::TooManyHeaders => "size overflows MAX_SIZE"@,
        }),
{
}

} // verus!
