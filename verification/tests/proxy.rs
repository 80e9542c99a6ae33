use apimimic_cli::server::proxy::{
    host_header, proxy_request, proxy_request_to, proxy_response, relay_headers, BAD_GATEWAY,
    INTERNAL_ERROR,
};
use apimimic_cli::server::{
    contains_header, message_document_from, message_response, plain_response, select_headers,
    Answer, Call, Fetched, Response,
};

fn pairs(list: &[(&str, &str)]) -> Vec<(String, String)> {
    list.iter().map(|(n, v)| (n.to_string(), v.to_string())).collect()
}

fn call(server: &str, uri: &str, headers: &[(&str, &str)]) -> Call {
    proxy_request(
        "GET".to_string(),
        uri.to_string(),
        server.to_string(),
        &pairs(headers),
        "{}".to_string(),
    )
}

#[test]
fn statuses_of_made_up_replies() {
    assert_eq!(BAD_GATEWAY, 502);
    assert_eq!(INTERNAL_ERROR, 500);
}

#[test]
fn contains_header_ignores_ascii_case() {
    let headers = pairs(&[("Accept", "*/*"), ("Apimimic-Proxy-Request", "true")]);
    assert!(contains_header(&headers, "apimimic-proxy-request"));
    assert!(contains_header(&headers, "ACCEPT"));
    assert!(!contains_header(&headers, "host"));
    assert!(!contains_header(&pairs(&[]), "host"));
}

#[test]
fn select_headers_keeps_order_and_values() {
    let headers = pairs(&[("Host", "a"), ("x", "1"), ("host", "b"), ("y", "2"), ("HOST", "c")]);
    assert_eq!(select_headers(&headers, "host", false), pairs(&[("x", "1"), ("y", "2")]));
    assert_eq!(
        select_headers(&headers, "host", true),
        pairs(&[("Host", "a"), ("host", "b"), ("HOST", "c")])
    );
}

#[test]
fn plain_response_has_no_header() {
    assert_eq!(
        plain_response(500, "né"),
        Response { status: 500, headers: Vec::new(), body: "né".as_bytes().to_vec() }
    );
}

#[test]
fn message_response_is_a_json_document() {
    assert_eq!(message_document_from("\"x\""), "{\"message\":\"x\"}");
    assert_eq!(
        message_response(500, "say \"no\""),
        Response {
            status: 500,
            headers: pairs(&[("Content-Type", "application/json")]),
            body: b"{\"message\":\"say \\\"no\\\"\"}".to_vec(),
        }
    );
}

#[test]
fn request_is_relayed_to_base_and_target() {
    assert_eq!(
        call("http://localhost:9000", "/orders/5", &[("accept", "*/*")]),
        Call {
            method: "GET".to_string(),
            url: "http://localhost:9000/orders/5".to_string(),
            headers: pairs(&[("accept", "*/*"), ("Host", "localhost:9000")]),
            body: "{}".to_string(),
        }
    );
}

#[test]
fn trailing_slashes_of_the_base_are_dropped() {
    assert_eq!(call("http://t:1///", "/a/", &[]).url, "http://t:1/a/");
    assert_eq!(call("http://t:1/base/", "/a?b=/", &[]).url, "http://t:1/base/a?b=/");
    assert_eq!(call("http://t:1", "", &[]).url, "http://t:1");
}

#[test]
fn callers_host_is_replaced_by_the_backends() {
    let made = call(
        "http://backend.test:9000",
        "/x",
        &[("Host", "localhost:8080"), ("a", "1"), ("host", "other"), ("b", "2")],
    );
    assert_eq!(made.headers, pairs(&[("a", "1"), ("b", "2"), ("Host", "backend.test:9000")]));
}

#[test]
fn default_port_is_left_out_of_host() {
    assert_eq!(call("http://example.com:80", "/", &[]).headers, pairs(&[("Host", "example.com")]));
    assert_eq!(call("https://example.com:443", "/", &[]).headers, pairs(&[("Host", "example.com")]));
    assert_eq!(call("https://example.com", "/", &[]).headers, pairs(&[("Host", "example.com")]));
    assert_eq!(
        call("https://example.com:80", "/", &[]).headers,
        pairs(&[("Host", "example.com:80")])
    );
}

#[test]
fn host_is_as_the_url_crate_reads_it() {
    assert_eq!(call("http://EXAMPLE.com:8080", "/", &[]).headers, pairs(&[("Host", "example.com:8080")]));
    assert_eq!(call("http://[::1]:9000", "/", &[]).headers, pairs(&[("Host", "[::1]:9000")]));
    assert_eq!(call("http://user:pw@h.test:81", "/", &[]).headers, pairs(&[("Host", "h.test:81")]));
}

#[test]
fn url_that_does_not_parse_gets_no_host() {
    assert_eq!(call("not a url", "/x", &[("host", "a"), ("k", "v")]).headers, pairs(&[("k", "v")]));
    assert_eq!(call("", "/x", &[]).headers, pairs(&[]));
}

#[test]
fn host_header_is_host_and_port() {
    assert_eq!(host_header(&Some((Some("h".to_string()), Some(9000)))), Some("h:9000".to_string()));
    assert_eq!(host_header(&Some((Some("h".to_string()), Some(0)))), Some("h:0".to_string()));
    assert_eq!(host_header(&Some((Some("h".to_string()), Some(65535)))), Some("h:65535".to_string()));
    assert_eq!(host_header(&Some((Some("h".to_string()), None))), Some("h".to_string()));
    assert_eq!(host_header(&Some((None, Some(1)))), None);
    assert_eq!(host_header(&Some((None, None))), None);
    assert_eq!(host_header(&None), None);
}

#[test]
fn proxy_request_to_takes_host_and_port_as_given() {
    assert_eq!(
        proxy_request_to(
            "PUT".to_string(),
            "http://a/b".to_string(),
            &pairs(&[("hOsT", "z"), ("k", "v")]),
            "[1]".to_string(),
            &Some((Some("other".to_string()), Some(7))),
        ),
        Call {
            method: "PUT".to_string(),
            url: "http://a/b".to_string(),
            headers: pairs(&[("k", "v"), ("Host", "other:7")]),
            body: "[1]".to_string(),
        }
    );
}

#[test]
fn every_set_cookie_is_relayed_on_its_own() {
    let relayed = relay_headers(&pairs(&[
        ("set-cookie", "a=1"),
        ("content-type", "text/plain"),
        ("set-cookie", "b=2"),
    ]));
    assert_eq!(
        relayed,
        pairs(&[("content-type", "text/plain"), ("set-cookie", "a=1"), ("set-cookie", "b=2")])
    );
    assert_eq!(relayed.iter().filter(|(name, _)| name == "set-cookie").count(), 2);
}

#[test]
fn relayed_headers_are_all_of_the_response() {
    let headers = pairs(&[
        ("Set-Cookie", "a=1"),
        ("x", "1"),
        ("x", "2"),
        ("SET-COOKIE", "a=1"),
        ("y", ""),
    ]);
    let mut relayed = relay_headers(&headers);
    assert_eq!(
        relayed,
        pairs(&[("x", "1"), ("x", "2"), ("y", ""), ("Set-Cookie", "a=1"), ("SET-COOKIE", "a=1")])
    );
    let mut sorted = headers.clone();
    sorted.sort();
    relayed.sort();
    assert_eq!(relayed, sorted);
    assert_eq!(relay_headers(&pairs(&[])), pairs(&[]));
}

#[test]
fn backends_response_is_relayed_after_the_delay() {
    let response = Response {
        status: 201,
        headers: pairs(&[("set-cookie", "a=1"), ("etag", "x"), ("set-cookie", "b=2")]),
        body: vec![0, 159, 255],
    };
    assert_eq!(
        proxy_response(Fetched::Answered(response), Some(250)),
        Answer {
            response: Response {
                status: 201,
                headers: pairs(&[("etag", "x"), ("set-cookie", "a=1"), ("set-cookie", "b=2")]),
                body: vec![0, 159, 255],
            },
            delay: 250,
        }
    );
}

#[test]
fn backends_response_without_a_delay_goes_out_at_once() {
    let response = Response { status: 404, headers: Vec::new(), body: Vec::new() };
    assert_eq!(proxy_response(Fetched::Answered(response), None).delay, 0);
    let response = Response { status: 404, headers: Vec::new(), body: Vec::new() };
    assert_eq!(proxy_response(Fetched::Answered(response), Some(0)).delay, 0);
}

#[test]
fn backend_out_of_reach_gives_bad_gateway() {
    assert_eq!(
        proxy_response(Fetched::Unreachable("connection refused".to_string()), Some(250)),
        Answer {
            response: Response {
                status: 502,
                headers: Vec::new(),
                body: b"Failed to contact target server: connection refused".to_vec(),
            },
            delay: 0,
        }
    );
}

#[test]
fn backend_body_that_cannot_be_read_gives_internal_error() {
    assert_eq!(
        proxy_response(Fetched::Unreadable("reset".to_string()), Some(250)),
        Answer {
            response: Response {
                status: 500,
                headers: Vec::new(),
                body: b"Failed to read proxy response body".to_vec(),
            },
            delay: 0,
        }
    );
}
