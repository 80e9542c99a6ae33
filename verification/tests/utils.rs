use apimimic_cli::utils::{
    listen_address_from, parse_listen_address, parse_server_url, server_url_from,
};

#[test]
fn bare_listen_address_is_kept() {
    assert_eq!(parse_listen_address("127.0.0.1:8080"), Ok("127.0.0.1:8080".to_string()));
    assert_eq!(parse_listen_address(""), Ok(String::new()));
}

#[test]
fn http_prefix_of_listen_address_is_removed() {
    assert_eq!(parse_listen_address("http://localhost:3000"), Ok("localhost:3000".to_string()));
    assert_eq!(parse_listen_address("http://http://x:1"), Ok("x:1".to_string()));
}

#[test]
fn listen_address_comes_out_in_lower_case() {
    assert_eq!(parse_listen_address("HTTP://LocalHost:3000"), Ok("localhost:3000".to_string()));
    assert_eq!(parse_listen_address("LOCALHOST:1"), Ok("localhost:1".to_string()));
    assert_eq!(parse_listen_address("ÉCOLE:1"), Ok("école:1".to_string()));
}

#[test]
fn https_listen_address_is_refused() {
    let refused = Err("HTTPS is not supported for local server".to_string());
    assert_eq!(parse_listen_address("https://localhost:3000"), refused);
    assert_eq!(parse_listen_address("HTTPS://localhost"), refused);
    assert_eq!(parse_listen_address("https://"), refused);
}

#[test]
fn https_further_in_is_not_refused() {
    assert_eq!(parse_listen_address("http://https://x"), Ok("https://x".to_string()));
}

#[test]
fn listen_address_from_takes_the_text_as_it_is() {
    assert_eq!(listen_address_from("http://a"), Ok("a".to_string()));
    assert_eq!(listen_address_from("HTTP://a"), Ok("HTTP://a".to_string()));
    assert_eq!(
        listen_address_from("https://a"),
        Err("HTTPS is not supported for local server".to_string())
    );
    assert_eq!(listen_address_from("HTTPS://a"), Ok("HTTPS://a".to_string()));
}

#[test]
fn missing_server_stays_missing() {
    assert_eq!(parse_server_url(&None), None);
}

#[test]
fn server_without_scheme_gets_http() {
    assert_eq!(
        parse_server_url(&Some("localhost:9000".to_string())),
        Some("http://localhost:9000".to_string())
    );
    assert_eq!(parse_server_url(&Some(String::new())), Some("http://".to_string()));
    assert_eq!(
        parse_server_url(&Some("ftp://files".to_string())),
        Some("http://ftp://files".to_string())
    );
}

#[test]
fn server_with_scheme_is_kept_as_written() {
    assert_eq!(
        parse_server_url(&Some("http://localhost:9000".to_string())),
        Some("http://localhost:9000".to_string())
    );
    assert_eq!(
        parse_server_url(&Some("https://example.com/api".to_string())),
        Some("https://example.com/api".to_string())
    );
    assert_eq!(
        parse_server_url(&Some("HTTP://Example.COM".to_string())),
        Some("HTTP://Example.COM".to_string())
    );
    assert_eq!(
        parse_server_url(&Some("HttpS://Example.COM".to_string())),
        Some("HttpS://Example.COM".to_string())
    );
}

#[test]
fn server_url_from_goes_by_the_lower_case_form() {
    assert_eq!(server_url_from("HTTP://A", "http://a"), "HTTP://A");
    assert_eq!(server_url_from("HTTP://A", "HTTP://A"), "http://HTTP://A");
    assert_eq!(server_url_from("a", "a"), "http://a");
    assert_eq!(server_url_from("x", "https://x"), "x");
}
