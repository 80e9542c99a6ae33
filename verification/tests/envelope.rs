use apimimic_cli::server::envelope::{
    header_mapping, quote_pairs, request_envelope, write_envelope, write_object,
};

fn pairs(list: &[(&str, &str)]) -> Vec<(String, String)> {
    list.iter().map(|(n, v)| (n.to_string(), v.to_string())).collect()
}

fn by_serde_json(method: &str, headers: &[(&str, &str)], body: &str, path: &str) -> String {
    let mut map = serde_json::Map::new();
    for (name, value) in headers {
        map.insert(name.to_string(), serde_json::Value::String(value.to_string()));
    }
    let mut envelope = serde_json::Map::new();
    envelope.insert("method".to_string(), serde_json::Value::String(method.to_string()));
    envelope.insert("headers".to_string(), serde_json::Value::Object(map));
    envelope.insert("body".to_string(), serde_json::from_str(body).unwrap());
    envelope.insert("path".to_string(), serde_json::Value::String(path.to_string()));
    serde_json::Value::Object(envelope).to_string()
}

#[test]
fn header_mapping_orders_the_names() {
    assert_eq!(
        header_mapping(&pairs(&[("x-b", "1"), ("accept", "2"), ("content-type", "3")])),
        pairs(&[("accept", "2"), ("content-type", "3"), ("x-b", "1")])
    );
    assert_eq!(header_mapping(&pairs(&[])), pairs(&[]));
    assert_eq!(header_mapping(&pairs(&[("a", "1")])), pairs(&[("a", "1")]));
}

#[test]
fn header_mapping_keeps_the_last_value_of_a_name() {
    assert_eq!(
        header_mapping(&pairs(&[("b", "1"), ("a", "2"), ("b", "3"), ("a", "4"), ("b", "5")])),
        pairs(&[("a", "4"), ("b", "5")])
    );
}

#[test]
fn header_mapping_tells_names_apart_by_case() {
    assert_eq!(
        header_mapping(&pairs(&[("a", "1"), ("A", "2"), ("ab", "3"), ("", "4")])),
        pairs(&[("", "4"), ("A", "2"), ("a", "1"), ("ab", "3")])
    );
}

#[test]
fn quote_pairs_quotes_names_and_values() {
    assert_eq!(
        quote_pairs(&pairs(&[("a", "1"), ("q\"", "\\")])),
        pairs(&[("\"a\"", "\"1\""), ("\"q\\\"\"", "\"\\\\\"")])
    );
    assert_eq!(quote_pairs(&pairs(&[])), pairs(&[]));
}

#[test]
fn quote_pairs_writes_json_string_literals() {
    assert_eq!(
        quote_pairs(&pairs(&[("plain", ""), ("line\nbreak\ttab", "\u{1}"), ("é/", "a\"b")])),
        pairs(&[
            ("\"plain\"", "\"\""),
            ("\"line\\nbreak\\ttab\"", "\"\\u0001\""),
            ("\"é/\"", "\"a\\\"b\""),
        ])
    );
}

#[test]
fn write_object_frames_the_members() {
    assert_eq!(write_object(&pairs(&[])), "{}");
    assert_eq!(write_object(&pairs(&[("\"a\"", "1")])), "{\"a\":1}");
    assert_eq!(
        write_object(&pairs(&[("\"a\"", "1"), ("\"b\"", "[2]"), ("\"c\"", "null")])),
        "{\"a\":1,\"b\":[2],\"c\":null}"
    );
}

#[test]
fn write_envelope_puts_the_four_members_in_order() {
    assert_eq!(
        write_envelope("\"GET\"", "{}", "{\"id\":5}", "\"orders/5\""),
        "{\"body\":{\"id\":5},\"headers\":{},\"method\":\"GET\",\"path\":\"orders/5\"}"
    );
}

#[test]
fn envelope_of_a_request() {
    assert_eq!(
        request_envelope(
            "POST",
            &pairs(&[("content-type", "application/json"), ("accept", "*/*")]),
            "{\"id\":5}",
            "orders/5?full=1"
        ),
        "{\"body\":{\"id\":5},\"headers\":{\"accept\":\"*/*\",\"content-type\":\"application/json\"},\"method\":\"POST\",\"path\":\"orders/5?full=1\"}"
    );
}

#[test]
fn envelope_of_a_request_with_an_empty_body_holds_the_empty_object() {
    assert_eq!(
        request_envelope("GET", &pairs(&[]), "{}", ""),
        "{\"body\":{},\"headers\":{},\"method\":\"GET\",\"path\":\"\"}"
    );
}

#[test]
fn envelope_is_what_serde_json_writes_for_the_same_document() {
    let cases: [(&str, &[(&str, &str)], &str, &str); 4] = [
        ("GET", &[], "{}", "orders/5"),
        ("POST", &[("x-b", "1"), ("accept", "a\"b"), ("x-b", "2")], "{\"k\":[1,2]}", "a b"),
        ("PATCH", &[("b", ""), ("a", "\n"), ("B", "é")], "null", "p?q=\"1\""),
        ("DELETE", &[("cookie", "a=1; b=2")], "\"text\"", "\\"),
    ];
    for (method, headers, body, path) in cases {
        assert_eq!(
            request_envelope(method, &pairs(headers), body, path),
            by_serde_json(method, headers, body, path)
        );
    }
}
