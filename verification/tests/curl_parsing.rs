use api_test_helper::request_helper::{parse_curl_command, parse_headers_only};

const FULL_CURL: &str = r#"curl 'https://api.example.com/users' \
  -X POST \
  -H 'Content-Type: application/json' \
  -H 'Authorization: Bearer tok123' \
  -b 'session=abc; user=bob' \
  --data '{"name":"Alice","age":30}'"#;

#[test]
fn test_parse_full_curl() {
    let data = parse_curl_command(FULL_CURL);
    assert_eq!(data.method, "POST");
    assert_eq!(data.url, "https://api.example.com/users");
    assert_eq!(data.headers.get("Content-Type").map(|s| s.as_str()), Some("application/json"));
    assert_eq!(data.headers.get("Authorization").map(|s| s.as_str()), Some("Bearer tok123"));
    assert_eq!(data.cookies.get("session").map(|s| s.as_str()), Some("abc"));
    assert_eq!(data.cookies.get("user").map(|s| s.as_str()), Some("bob"));
    assert!(data.payload.is_some());
}

#[test]
fn test_extract_method_explicit() {
    let data = parse_curl_command("curl 'https://example.com' -X DELETE");
    assert_eq!(data.method, "DELETE");
}

#[test]
fn test_extract_method_defaults_to_get() {
    let data = parse_curl_command("curl 'https://example.com'");
    assert_eq!(data.method, "GET");
}

#[test]
fn test_extract_method_defaults_to_post_with_data() {
    let data = parse_curl_command("curl 'https://example.com' --data '{}'");
    assert_eq!(data.method, "POST");
}

#[test]
fn test_extract_cookies() {
    let data = parse_curl_command("curl 'https://example.com' -b 'a=1; b=2; c=3'");
    assert_eq!(data.cookies.get("a").map(|s| s.as_str()), Some("1"));
    assert_eq!(data.cookies.get("b").map(|s| s.as_str()), Some("2"));
    assert_eq!(data.cookies.get("c").map(|s| s.as_str()), Some("3"));
}

#[test]
fn test_extract_headers_multiple() {
    let data = parse_curl_command(
        "curl 'https://example.com' -H 'Accept: application/json' -H 'X-Foo: bar'",
    );
    assert_eq!(data.headers.get("Accept").map(|s| s.as_str()), Some("application/json"));
    assert_eq!(data.headers.get("X-Foo").map(|s| s.as_str()), Some("bar"));
}

#[test]
fn test_extract_payload_valid_json() {
    let data = parse_curl_command("curl 'https://example.com' --data '{\"key\":\"val\"}'");
    let p = data.payload.unwrap();
    assert_eq!(p["key"], "val");
}

#[test]
fn test_extract_payload_invalid_json_returns_none() {
    let data = parse_curl_command("curl 'https://example.com' --data 'not-json'");
    assert!(data.payload.is_none());
}

#[test]
fn test_parse_headers_only() {
    let data = parse_headers_only(FULL_CURL);
    assert!(data.method.is_empty());
    assert!(data.url.is_empty());
    assert!(data.headers.contains_key("Content-Type"));
    assert!(data.cookies.contains_key("session"));
}

#[test]
fn test_data_raw_and_data_binary() {
    let raw = parse_curl_command("curl 'https://example.com' --data-raw '{\"x\":1}'");
    assert!(raw.payload.is_some());
    let binary = parse_curl_command("curl 'https://example.com' --data-binary '{\"x\":1}'");
    assert!(binary.payload.is_some());
}
