use axum::http::{HeaderMap, HeaderValue};
use http_server::headers::{connection_lists, filter_headers, is_hop_by_hop, relay_headers};

const HOP_BY_HOP: [&str; 10] = [
    "connection",
    "keep-alive",
    "proxy-connection",
    "transfer-encoding",
    "host",
    "proxy-authenticate",
    "proxy-authorization",
    "te",
    "trailer",
    "upgrade",
];

fn sample() -> HeaderMap<HeaderValue> {
    let mut headers = HeaderMap::new();
    for name in HOP_BY_HOP {
        headers.append(name, HeaderValue::from_static("drop"));
        headers.append(name, HeaderValue::from_static("me"));
    }
    headers.append("accept", HeaderValue::from_static("a"));
    headers.append("accept", HeaderValue::from_static("b"));
    headers.append("x-bytes", HeaderValue::from_bytes(&[0x80, 0xff, 9, 32]).unwrap());
    headers
}

#[test]
fn hop_by_hop_names() {
    for name in HOP_BY_HOP {
        assert!(is_hop_by_hop(name));
    }
    for name in ["", "hos", "hosts", "accept", "Connection"] {
        assert!(!is_hop_by_hop(name));
    }
}

#[test]
fn filtering_drops_only_hop_by_hop_headers() {
    let filtered = filter_headers(&sample());
    for name in HOP_BY_HOP {
        assert!(!filtered.contains_key(name));
    }
    let accept: Vec<&HeaderValue> = filtered.get_all("accept").iter().collect();
    assert_eq!(accept, vec!["a", "b"]);
    assert_eq!(filtered.get("x-bytes").unwrap().as_bytes(), &[0x80, 0xff, 9, 32]);
    assert_eq!(filtered.len(), 3);
    assert_eq!(filter_headers(&filtered), filtered);
    assert_eq!(filter_headers(&HeaderMap::new()).len(), 0);
}

#[test]
fn relaying_keeps_the_last_value() {
    let relayed = relay_headers(&sample()).unwrap();
    for name in HOP_BY_HOP {
        assert!(!relayed.contains_key(name));
    }
    let accept: Vec<&HeaderValue> = relayed.get_all("accept").iter().collect();
    assert_eq!(accept, vec!["b"]);
    assert_eq!(relayed.get("x-bytes").unwrap().as_bytes(), &[0x80, 0xff, 9, 32]);
    assert_eq!(relayed.len(), 2);
    assert_eq!(relay_headers(&relayed).unwrap(), relayed);
}

#[test]
fn relaying_takes_many_names() {
    let mut headers = HeaderMap::new();
    for i in 0..6554 {
        let name = axum::http::HeaderName::from_bytes(format!("n{}", i).as_bytes()).unwrap();
        headers.insert(name, HeaderValue::from_str(&format!("{}", i)).unwrap());
    }
    let relayed = relay_headers(&headers).unwrap();
    assert_eq!(relayed.len(), 6554);
    assert_eq!(relayed.get("n77").unwrap(), "77");
}

fn map(fields: &[(&'static str, &'static str)]) -> HeaderMap<HeaderValue> {
    let mut map = HeaderMap::new();
    for (name, value) in fields {
        map.append(axum::http::HeaderName::from_static(name), HeaderValue::from_static(value));
    }
    map
}

#[test]
fn keep_alive_and_proxy_connection_are_dropped() {
    let headers = map(&[
        ("keep-alive", "timeout=5"),
        ("proxy-connection", "keep-alive"),
        ("accept", "*/*"),
    ]);
    assert_eq!(filter_headers(&headers), map(&[("accept", "*/*")]));
    assert_eq!(relay_headers(&headers).unwrap(), map(&[("accept", "*/*")]));
}

#[test]
fn headers_that_connection_lists_are_dropped() {
    let headers = map(&[
        ("x-a", "1"),
        ("x-b", "2"),
        ("x-c", "3"),
        ("x-d", "4"),
        ("connection", "close, X-A ,\tx-b"),
        ("connection", "x-cc,x c,x-d"),
    ]);
    assert_eq!(filter_headers(&headers), map(&[("x-c", "3")]));
    assert_eq!(relay_headers(&headers).unwrap(), map(&[("x-c", "3")]));
}

#[test]
fn names_that_a_connection_value_lists() {
    assert!(connection_lists(b"x-a", "x-a"));
    assert!(connection_lists(b" \t,, X-A\t , y", "x-a"));
    assert!(connection_lists(b"x-aa, x-a", "x-a"));
    assert!(!connection_lists(b"", "x-a"));
    assert!(!connection_lists(b"x-aa", "x-a"));
    assert!(!connection_lists(b"y-x-a", "x-a"));
    assert!(!connection_lists(b"x-a y", "x-a"));
    assert!(!connection_lists(b"x-a;q=1", "x-a"));
    assert!(!connection_lists(b"x-\xc1", "x-a"));
}

#[test]
fn name_with_a_quotation_mark_passes() {
    let headers = map(&[("a\"b", "1"), ("te", "trailers")]);
    assert_eq!(filter_headers(&headers), map(&[("a\"b", "1")]));
    assert_eq!(relay_headers(&headers).unwrap(), map(&[("a\"b", "1")]));
    let listed = map(&[("a\"b", "1"), ("connection", "a\"b")]);
    assert_eq!(filter_headers(&listed), map(&[("a\"b", "1")]));
}

const LONG: &str = "x-a-name-that-is-longer-than-sixty-four-characters-and-holds-one space";

#[test]
fn long_name_that_is_no_token_passes() {
    assert!(LONG.len() > 64);
    let mut headers = HeaderMap::new();
    headers.append(LONG, HeaderValue::from_static("1"));
    headers.append(LONG, HeaderValue::from_static("2"));
    headers.append("te", HeaderValue::from_static("trailers"));
    let name = headers.keys().find(|name| name.as_str().len() > 64).unwrap().clone();
    assert!(name.as_str().contains('\0'));
    let marked = HeaderValue::from(name.clone());
    headers.append("x-marked", marked.clone());

    let filtered = filter_headers(&headers);
    let values: Vec<&HeaderValue> = filtered.get_all(&name).iter().collect();
    assert_eq!(values, vec!["1", "2"]);
    assert_eq!(filtered.get("x-marked").unwrap(), &marked);
    assert_eq!(filtered.len(), 3);

    let relayed = relay_headers(&headers).unwrap();
    let values: Vec<&HeaderValue> = relayed.get_all(&name).iter().collect();
    assert_eq!(values, vec!["2"]);
    assert_eq!(relayed.get("x-marked").unwrap(), &marked);
    assert_eq!(relayed.len(), 2);
}

#[test]
fn sensitive_mark_is_kept() {
    let mut secret = HeaderValue::from_static("token");
    secret.set_sensitive(true);
    let mut headers = HeaderMap::new();
    headers.insert("authorization", secret);
    headers.insert("accept", HeaderValue::from_static("a"));
    for passed in [filter_headers(&headers), relay_headers(&headers).unwrap()] {
        assert!(passed.get("authorization").unwrap().is_sensitive());
        assert!(!passed.get("accept").unwrap().is_sensitive());
    }
}
