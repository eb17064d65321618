use axum::http::{HeaderMap, HeaderValue};
use http_server::proxy::{
    answer, answer_head, forward, parse_routes, proxy_handler, reply, route_table, upstream_url, Answer,
    AnswerHead, ForwardError, Reply, RequestHead, ReverseProxy, Routed, Variable,
};
use http_server::routes::{ProxyRoute, RouteTable};

fn proxy(routes: &[(&str, &str)]) -> ReverseProxy {
    let mut proxy = ReverseProxy::new();
    for (prefix, upstream) in routes {
        proxy.add_route(prefix, upstream);
    }
    proxy
}

fn url(proxy: &ReverseProxy, path: &str) -> Option<String> {
    match proxy_handler(proxy, path) {
        Routed::Forward { url, .. } => Some(url),
        Routed::Refused(_) => None,
    }
}

fn headers(fields: &[(&'static str, &'static str)]) -> HeaderMap<HeaderValue> {
    let mut map = HeaderMap::new();
    for (name, value) in fields {
        map.append(*name, HeaderValue::from_static(value));
    }
    map
}

fn head(client_ip: Option<&str>) -> RequestHead {
    RequestHead {
        method: "POST".to_string(),
        url: "http://localhost:3000/users".to_string(),
        headers: headers(&[
            ("host", "example.com"),
            ("accept", "text/html"),
            ("accept", "text/plain"),
            ("connection", "keep-alive"),
        ]),
        client_ip: client_ip.map(|ip| ip.to_string()),
    }
}

#[test]
fn remainder_of_the_path_is_appended() {
    let proxy = proxy(&[("/api", "http://localhost:3000")]);
    match proxy_handler(&proxy, "/api/users") {
        Routed::Forward { upstream, url } => {
            assert_eq!(upstream, "http://localhost:3000");
            assert_eq!(url, "http://localhost:3000/users");
        }
        Routed::Refused(_) => panic!("the route applies"),
    }
    assert_eq!(url(&proxy, "/api").unwrap(), "http://localhost:3000");
    assert_eq!(url(&proxy, "/api/").unwrap(), "http://localhost:3000/");
    assert_eq!(url(&proxy, "/api/users?id=1").unwrap(), "http://localhost:3000/users?id=1");
    assert_eq!(url(&proxy, "/api?id=1").unwrap(), "http://localhost:3000?id=1");
    assert_eq!(url(&proxy, "/apiary").unwrap(), "http://localhost:3000/ary");
}

#[test]
fn root_route_serves_every_path() {
    let proxy = proxy(&[("/", "http://localhost:8080")]);
    assert_eq!(url(&proxy, "/").unwrap(), "http://localhost:8080");
    assert_eq!(url(&proxy, "/a/b").unwrap(), "http://localhost:8080/a/b");
}

#[test]
fn slashes_at_the_end_of_an_upstream_are_cut() {
    assert_eq!(upstream_url("http://u/base///", "/p", "/p/x"), "http://u/base/x");
    assert_eq!(upstream_url("///", "", "/x"), "/x");
    assert_eq!(upstream_url("http://\u{fc}/", "/\u{fc}", "/\u{fc}/\u{e4}"), "http://\u{fc}/\u{e4}");
}

#[test]
fn longest_prefix_wins() {
    let proxy = proxy(&[("/", "http://root"), ("/api/v2", "http://v2"), ("/api", "http://api")]);
    assert_eq!(proxy.get_upstream("/api/v2/users").unwrap(), "http://v2");
    assert_eq!(proxy.get_upstream("/api/v1").unwrap(), "http://api");
    assert_eq!(proxy.get_upstream("/other").unwrap(), "http://root");
    assert_eq!(proxy.get_upstream("other"), None);
}

#[test]
fn unrouted_path_is_not_found() {
    let proxy = proxy(&[("/api", "http://api")]);
    match proxy_handler(&proxy, "/app") {
        Routed::Refused(answer) => {
            assert_eq!(answer.status, 404);
            assert_eq!(answer.body, "Not Found");
        }
        Routed::Forward { .. } => panic!("no route applies"),
    }
    assert_eq!(ReverseProxy::default().get_upstream("/"), None);
}

#[test]
fn empty_prefix_catches_all() {
    let proxy = proxy(&[("", "http://all")]);
    assert_eq!(proxy.get_upstream("").unwrap(), "http://all");
    assert_eq!(url(&proxy, "/x").unwrap(), "http://all/x");
}

#[test]
fn adding_a_route_replaces_the_one_it_has() {
    let mut proxy = proxy(&[("/a", "http://1"), ("/b", "http://2")]);
    proxy.add_route("/a", "http://3");
    assert_eq!(proxy.get_upstream("/a").unwrap(), "http://3");
    assert_eq!(proxy.get_upstream("/b").unwrap(), "http://2");
    assert_eq!(proxy.routes().len(), 2);
}

#[test]
fn routes_of_a_table() {
    let mut table = RouteTable::new();
    table.insert_list(&vec![
        ProxyRoute { prefix: "/a".to_string(), upstream: "1".to_string() },
        ProxyRoute { prefix: "/a".to_string(), upstream: "2".to_string() },
    ]);
    let copy = table.clone();
    let proxy = ReverseProxy::from_routes(table);
    assert_eq!(proxy.get_upstream("/a").unwrap(), "2");
    assert_eq!(copy.get("/a"), Some("2"));
    assert_eq!(copy.get("/b"), None);
    assert_eq!(copy.routes().len(), 1);
    assert_eq!(copy.route_for("/ab").unwrap().prefix, "/a");
    let pairs = vec![("/x".to_string(), "1".to_string()), ("/x".to_string(), "2".to_string())];
    assert_eq!(route_table(pairs).get("/x"), Some("2"));
}

#[test]
fn routes_of_the_environment() {
    let text = "{\"/api\": \"http://localhost:3000\", \"/app\": \"http://localhost:5173\"}";
    let proxy = ReverseProxy::from_env(&Variable::Present(text.to_string()));
    assert_eq!(proxy.get_upstream("/api/users").unwrap(), "http://localhost:3000");
    assert_eq!(proxy.get_upstream("/app").unwrap(), "http://localhost:5173");
    assert_eq!(proxy.routes().len(), 2);
    let broken = ReverseProxy::from_env(&Variable::Present("{".to_string()));
    assert_eq!(broken.routes().len(), 0);
    assert_eq!(ReverseProxy::from_env(&Variable::NotPresent).routes().len(), 0);
    assert_eq!(ReverseProxy::from_env(&Variable::NotUnicode).routes().len(), 0);
    assert!(parse_routes("[1]").is_err());
    assert_eq!(parse_routes("{}").unwrap().len(), 0);
    assert_eq!(parse_routes("{\"a\": \"1\", \"a\": \"2\"}").unwrap().get("a"), Some("2"));
}

#[test]
fn request_is_forwarded() {
    let request = forward(head(Some("203.0.113.7")), Ok(b"hello".to_vec())).unwrap();
    assert_eq!(request.method, "POST");
    assert_eq!(request.url, "http://localhost:3000/users");
    assert_eq!(request.headers, headers(&[("accept", "text/html"), ("accept", "text/plain")]));
    let forwarded: Vec<(&str, &str)> =
        request.forwarded.iter().map(|(name, value)| (name.as_str(), value.as_str())).collect();
    assert_eq!(
        forwarded,
        vec![
            ("X-Forwarded-For", "203.0.113.7"),
            ("X-Forwarded-Proto", "https"),
            ("X-Real-IP", "203.0.113.7"),
        ]
    );
    assert_eq!(request.body, Some(b"hello".to_vec()));
}

#[test]
fn request_without_body_or_client() {
    let request = forward(head(None), Ok(Vec::new())).unwrap();
    assert_eq!(request.body, None);
    assert_eq!(request.forwarded[0].1, "unknown");
    assert_eq!(request.forwarded[2].1, "unknown");
}

#[test]
fn answer_is_relayed() {
    let upstream = AnswerHead {
        status: 201,
        headers: headers(&[
            ("set-cookie", "a=1"),
            ("set-cookie", "b=2"),
            ("transfer-encoding", "chunked"),
            ("content-type", "text/plain"),
        ]),
    };
    let shown = answer_head(Ok(upstream)).unwrap();
    assert_eq!(shown.status, 201);
    assert_eq!(shown.headers, headers(&[("set-cookie", "b=2"), ("content-type", "text/plain")]));
    match reply(answer(shown, Ok(b"done".to_vec()))) {
        Reply::Relayed(Answer { status, headers, body }) => {
            assert_eq!(status, 201);
            assert_eq!(headers.get("content-type").unwrap(), "text/plain");
            assert_eq!(body, b"done");
        }
        Reply::Text(_) => panic!("the answer was read"),
    }
}

fn bad_gateway(error: ForwardError) -> (u16, String) {
    match reply(Err(error)) {
        Reply::Text(answer) => (answer.status, answer.body),
        Reply::Relayed(_) => panic!("forwarding failed"),
    }
}

#[test]
fn failures_are_bad_gateways() {
    let unread = forward(head(None), Err("closed".to_string())).unwrap_err();
    assert_eq!(
        bad_gateway(unread),
        (502, "Bad Gateway: Failed to read request body: closed".to_string())
    );
    let failed = answer_head(Err("refused".to_string())).unwrap_err();
    assert_eq!(bad_gateway(failed), (502, "Bad Gateway: Upstream request failed: refused".to_string()));
    let head = AnswerHead { status: 200, headers: headers(&[]) };
    let cut = answer(head, Err("cut".to_string())).unwrap_err();
    assert_eq!(
        bad_gateway(cut),
        (502, "Bad Gateway: Failed to read upstream response: cut".to_string())
    );
    for status in [0, 99, 1000] {
        let invalid = answer_head(Ok(AnswerHead { status, headers: headers(&[]) })).unwrap_err();
        assert_eq!(
            bad_gateway(invalid),
            (502, "Bad Gateway: Invalid upstream status: invalid status code".to_string())
        );
    }
    for status in [100, 999] {
        assert!(answer_head(Ok(AnswerHead { status, headers: headers(&[]) })).is_ok());
    }
}

#[test]
fn answer_with_as_many_headers_as_a_map_takes() {
    let mut many = HeaderMap::new();
    for i in 0..24576 {
        let name = axum::http::HeaderName::from_bytes(format!("x-{}", i).as_bytes()).unwrap();
        many.insert(name, HeaderValue::from_static("1"));
    }
    let shown = answer_head(Ok(AnswerHead { status: 200, headers: many })).unwrap();
    assert_eq!(shown.headers.len(), 24576);
}

#[test]
fn too_many_headers_are_a_bad_gateway() {
    assert_eq!(
        bad_gateway(ForwardError::TooManyHeaders),
        (502, "Bad Gateway: size overflows MAX_SIZE".to_string())
    );
}

#[test]
fn query_has_no_say_in_the_route() {
    let proxy = proxy(&[("/s?q=", "http://up:1"), ("/t", "http://up:2/")]);
    match proxy_handler(&proxy, "/s?q=1") {
        Routed::Refused(answer) => {
            assert_eq!(answer.status, 404);
            assert_eq!(answer.body, "Not Found");
        }
        Routed::Forward { .. } => panic!("the path is no part of the prefix"),
    }
    assert_eq!(url(&proxy, "/t?a=/b?c").unwrap(), "http://up:2?a=/b?c");
    assert_eq!(url(&proxy, "/t/x?/t").unwrap(), "http://up:2/x?/t");
    assert_eq!(url(&proxy, "/tx?").unwrap(), "http://up:2/x?");
    assert_eq!(url(&proxy, "?/t"), None);
}

#[test]
fn answer_with_a_long_name_that_is_no_token() {
    let mut map = HeaderMap::new();
    map.insert(
        "x-a-name-that-is-longer-than-sixty-four-characters-and-holds-one space",
        HeaderValue::from_static("1"),
    );
    let shown = answer_head(Ok(AnswerHead { status: 200, headers: map.clone() })).unwrap();
    assert_eq!(shown.headers, map);
}
