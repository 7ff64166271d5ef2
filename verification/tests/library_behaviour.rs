use api_test_helper::app_state::AppState;
use api_test_helper::curl_dialog::{resolve, CurlDialogChoice, CurlDialogState};
use api_test_helper::request_editor::{parse_json_value, parse_map, pretty_map, RequestEditorState};
use api_test_helper::http::{cookie_header, parsed_response, plan_http_request, HttpMethod, RequestError};
use api_test_helper::request_helper::{
    extract_cookies, extract_headers, extract_method, extract_payload, extract_url,
    parse_curl_command, ParsedResponse, RequestData, SavedPayload,
};
use api_test_helper::response_output::{decimal_text, update_from_result, Action, ResponseOutputState};
use api_test_helper::string_map::{map_from_pairs, StringMap};
use api_test_helper::text::{expand_tabs, normalize, trim_text, white_space};

fn json(text: &str) -> serde_json::Value {
    serde_json::from_str(text).unwrap()
}

fn pairs(items: &[(&str, &str)]) -> Vec<(String, String)> {
    items.iter().map(|(k, v)| (k.to_string(), v.to_string())).collect()
}

fn entries(m: &StringMap) -> Vec<(String, String)> {
    m.entries().clone()
}

#[test]
fn white_space_is_the_unicode_property() {
    for c in (0u32..=0x10FFFF).filter_map(char::from_u32) {
        assert_eq!(white_space(c), c.is_whitespace(), "{:?}", c);
    }
}

#[test]
fn trimming_and_normalising() {
    assert_eq!(trim_text("  \u{3000}a b\t\r\n"), "a b");
    assert_eq!(trim_text(" \t "), "");
    assert_eq!(normalize(""), "");
    assert_eq!(normalize("a\n"), "a");
    assert_eq!(normalize("curl 'x' \\\r\n  -X PUT \\\n\n"), "curl 'x' \\ -X PUT \\ ");
    assert_eq!(normalize("\nabc"), " abc");
}

#[test]
fn normalised_text_is_one_line() {
    let out = normalize("a\nb\r\n c \n\n\nd");
    assert!(!out.contains('\n'));
    assert_eq!(out, "a b c   d");
}

#[test]
fn last_header_flag_wins() {
    let h = extract_headers("-H 'x: 1' -H 'y: 2' -H 'x: 3'");
    assert_eq!(h.get("x").map(|s| s.as_str()), Some("3"));
    assert_eq!(h.get("y").map(|s| s.as_str()), Some("2"));
    assert_eq!(h.len(), 2);
    assert_eq!(entries(&h), pairs(&[("x", "3"), ("y", "2")]));
}

#[test]
fn header_edge_cases() {
    // The value group takes back one space when nothing else follows the colon.
    assert_eq!(entries(&extract_headers("-H 'a: '")), pairs(&[("a", "")]));
    assert_eq!(entries(&extract_headers("-H 'a:'")), pairs(&[]));
    assert_eq!(entries(&extract_headers("-H ' k : v '")), pairs(&[("k", "v")]));
    assert_eq!(entries(&extract_headers("-H 'a::b'")), pairs(&[("a", ":b")]));
    assert_eq!(entries(&extract_headers("-H'a: b'")), pairs(&[]));
}

#[test]
fn last_cookie_item_wins() {
    let c = extract_cookies("-b 'a=1; b = 2 ;a=3' -b 'z=9'");
    assert_eq!(entries(&c), pairs(&[("a", "3"), ("b", "2")]));
}

#[test]
fn cookie_items_without_value_or_name() {
    let c = extract_cookies("-b 'flag; =v; k=a=b;'");
    assert_eq!(entries(&c), pairs(&[("flag", ""), ("", ""), ("k", "a=b")]));
}

#[test]
fn method_flag_and_defaults() {
    assert_eq!(extract_method("-X patch"), "PATCH");
    assert_eq!(extract_method("-X  x_1"), "X_1");
    assert_eq!(extract_method("-X straße"), "STRASSE");
    assert_eq!(extract_method("-X 'post'"), "GET");
    assert_eq!(extract_method("--data-raw 'a'"), "POST");
    assert_eq!(extract_method("--data-urlencode 'a'"), "GET");
    assert_eq!(extract_method("--data 'a' -X get"), "GET");
}

#[test]
fn url_is_the_first_quoted_curl_argument() {
    assert_eq!(extract_url("curl  'http://a' curl 'http://b'"), "http://a");
    assert_eq!(extract_url("curl http://a"), "");
    assert_eq!(extract_url("curl ''"), "");
}

#[test]
fn payload_is_the_first_data_argument_when_it_is_json() {
    assert_eq!(extract_payload("--data '[1, 2]' --data '3'"), Some(json("[1, 2]")));
    assert_eq!(extract_payload("--data-binary ' {\"a\": null} '"), Some(json("{\"a\": null}")));
    assert_eq!(extract_payload("--data 'x' --data '1'"), None);
    assert_eq!(extract_payload("no data"), None);
}

#[test]
fn maps_keep_first_insertion_order() {
    let m = map_from_pairs(pairs(&[("b", "1"), ("a", "2"), ("b", "3")]));
    assert_eq!(entries(&m), pairs(&[("b", "3"), ("a", "2")]));
    assert!(m.contains_key("a"));
    assert!(!m.contains_key("c"));
    assert_eq!(m.get("c"), None);
    assert!(!m.is_empty());
    let mut n = m.clone();
    n.insert("c".to_string(), "4".to_string());
    assert_eq!(n.len(), 3);
    assert_eq!(m.len(), 2);
    assert!(StringMap::default().is_empty());
}

#[test]
fn map_texts_round_trip_through_json() {
    let m = map_from_pairs(pairs(&[("Accept", "application/json"), ("X-A", "q\"uote")]));
    let text = pretty_map(&m);
    assert_eq!(text, "{\n  \"Accept\": \"application/json\",\n  \"X-A\": \"q\\\"uote\"\n}");
    let back = parse_map(&text);
    assert_eq!(back.get("Accept").map(|s| s.as_str()), Some("application/json"));
    assert_eq!(back.get("X-A").map(|s| s.as_str()), Some("q\"uote"));
    assert_eq!(pretty_map(&StringMap::new()), "");
    assert!(parse_map("   ").is_empty());
    assert!(parse_map("[1]").is_empty());
    assert!(parse_map("{\"a\": 1}").is_empty());
}

#[test]
fn body_values() {
    assert_eq!(parse_json_value("  "), None);
    assert_eq!(parse_json_value("nope"), None);
    assert_eq!(parse_json_value(" {\"k\": [true]} "), Some(json("{\"k\": [true]}")));
}

#[test]
fn full_import_reads_back() {
    let data = parse_curl_command(
        "curl 'https://h/p' -X put -H 'A: 1' -b 's=t' --data '{\"n\": 2}'",
    );
    let mut editor = RequestEditorState::default();
    editor.apply_full(data.clone());
    assert_eq!(editor.method, "PUT");
    assert_eq!(editor.url, "https://h/p");
    let req = editor.current_request();
    assert_eq!(req.method, data.method);
    assert_eq!(req.url, data.url);
    assert_eq!(entries(&req.headers), entries(&data.headers));
    assert_eq!(entries(&req.cookies), entries(&data.cookies));
    assert_eq!(req.payload, data.payload);
}

#[test]
fn headers_only_import_keeps_the_rest() {
    let mut editor = RequestEditorState::default();
    editor.method = "DELETE".to_string();
    editor.url = "u".to_string();
    editor.body_text = "{}".to_string();
    editor.apply_headers_only(api_test_helper::request_helper::parse_headers_only(
        "curl 'x' -X GET -H 'H: v'",
    ));
    assert_eq!(editor.method, "DELETE");
    assert_eq!(editor.url, "u");
    assert_eq!(editor.body_text, "{}");
    assert_eq!(editor.headers_text, "{\n  \"H\": \"v\"\n}");
    assert_eq!(editor.cookies_text, "");
}

#[test]
fn saved_payload_reads_back() {
    let mut editor = RequestEditorState::default();
    editor.method = "POST".to_string();
    editor.url = "https://x".to_string();
    editor.body_text = "{\"a\":1}".to_string();
    let saved: SavedPayload = editor.saved_payload();
    assert_eq!(saved.payload, Some(json("{\"a\": 1}")));
    let mut other = RequestEditorState::default();
    other.headers_text = "h".to_string();
    other.apply_saved_payload(saved);
    assert_eq!(other.method, "POST");
    assert_eq!(other.url, "https://x");
    assert_eq!(other.body_text, "{\n  \"a\": 1\n}");
    assert_eq!(other.headers_text, "h");
}

#[test]
fn tabs_become_four_spaces() {
    assert_eq!(expand_tabs("a\tb\t\t"), "a    b        ");
    let mut editor = RequestEditorState::default();
    editor.body_text = "{\n\t\"a\": 1\n}".to_string();
    editor.expand_body_tabs();
    assert_eq!(editor.body_text, "{\n    \"a\": 1\n}");
}

#[test]
fn decimal_numerals() {
    assert_eq!(decimal_text(0), "0");
    assert_eq!(decimal_text(7), "7");
    assert_eq!(decimal_text(200), "200");
    assert_eq!(decimal_text(65535), "65535");
}

#[test]
fn log_entries_are_appended() {
    let mut state = ResponseOutputState::default();
    update_from_result(
        &mut state,
        "GET",
        "http://a",
        None,
        Ok(ParsedResponse { status_code: 200, body: "ok".to_string() }),
    );
    assert_eq!(state.status_code, "200");
    assert_eq!(state.output_log, "---\nGET http://a\nSTATUS CODE: 200\nRESPONSE:\nok\n");
    let payload = json("{\"x\": 1}");
    update_from_result(
        &mut state,
        "POST",
        "http://b",
        Some(&payload),
        Ok(ParsedResponse { status_code: 404, body: "no".to_string() }),
    );
    assert_eq!(
        state.output_log,
        "---\nGET http://a\nSTATUS CODE: 200\nRESPONSE:\nok\n---\nPOST http://b\nPAYLOAD:\n{\n  \"x\": 1\n}\nSTATUS CODE: 404\nRESPONSE:\nno\n"
    );
    update_from_result(&mut state, "GET", "u", None, Err("boom".to_string()));
    assert_eq!(state.status_code, "ERROR");
    assert!(state.output_log.ends_with("---\nERROR: boom\n"));
    state.clear();
    assert_eq!(state.status_code, "");
    assert_eq!(state.output_log, "");
}

#[test]
fn plans_for_each_method() {
    let mut req = RequestData::default();
    req.method = "POST".to_string();
    req.url = "http://x".to_string();
    req.headers.insert("A".to_string(), "1".to_string());
    req.cookies.insert("s".to_string(), "t".to_string());
    req.cookies.insert("u".to_string(), "v".to_string());
    req.payload = Some(json("{\"k\": 1}"));
    let plan = plan_http_request(req.clone()).unwrap();
    assert_eq!(plan.method, HttpMethod::Post);
    assert_eq!(plan.url, "http://x");
    assert_eq!(plan.headers, pairs(&[("A", "1"), ("Cookie", "s=t; u=v")]));
    assert_eq!(plan.json_body, Some(json("{\"k\": 1}")));

    let mut get = req.clone();
    get.method = "GET".to_string();
    let plan = plan_http_request(get).unwrap();
    assert_eq!(plan.method, HttpMethod::Get);
    assert_eq!(plan.json_body, None);

    let mut put = req.clone();
    put.method = "PUT".to_string();
    assert_eq!(plan_http_request(put).unwrap().json_body, Some(json("{\"k\": 1}")));

    let mut delete = RequestData::default();
    delete.method = "DELETE".to_string();
    let plan = plan_http_request(delete).unwrap();
    assert_eq!(plan.method, HttpMethod::Delete);
    assert!(plan.headers.is_empty());
}

#[test]
fn unsupported_method_is_refused() {
    let mut req = RequestData::default();
    req.method = "get".to_string();
    let err = plan_http_request(req).unwrap_err();
    assert_eq!(err, RequestError::UnsupportedMethod("get".to_string()));
    assert_eq!(err.message(), "Unsupported HTTP method: get");
}

#[test]
fn cookie_header_joins_items() {
    assert_eq!(cookie_header(&map_from_pairs(pairs(&[("a", "1"), ("b", "")]))), "a=1; b=");
    assert_eq!(cookie_header(&StringMap::new()), "");
}

#[test]
fn response_bodies() {
    let r = parsed_response(201, b"{\"a\":[1,2]}");
    assert_eq!(r.status_code, 201);
    assert_eq!(r.body, "{\n  \"a\": [\n    1,\n    2\n  ]\n}");
    let r = parsed_response(500, b"plain text");
    assert_eq!(r.body, "plain text");
    let r = parsed_response(200, b"bad \xff byte");
    assert_eq!(r.body, "bad \u{fffd} byte");
}

#[test]
fn dialog_choices() {
    let mut dialog = Some(CurlDialogState::default());
    dialog.as_mut().unwrap().curl_input = "curl 'u' -X GET -H 'A: b'".to_string();
    let mut editor = RequestEditorState::default();
    resolve(&mut dialog, &mut editor, CurlDialogChoice::ParseFull);
    assert!(dialog.is_none());
    assert_eq!(editor.method, "GET");
    assert_eq!(editor.url, "u");
    assert_eq!(editor.body_text, "");

    let mut dialog = Some(CurlDialogState { curl_input: "curl 'v' -b 'c=d'".to_string() });
    resolve(&mut dialog, &mut editor, CurlDialogChoice::ParseHeadersOnly);
    assert_eq!(editor.url, "u");
    assert_eq!(editor.headers_text, "");
    assert_eq!(editor.cookies_text, "{\n  \"c\": \"d\"\n}");

    let mut dialog = Some(CurlDialogState { curl_input: "curl 'w'".to_string() });
    resolve(&mut dialog, &mut editor, CurlDialogChoice::Cancel);
    assert!(dialog.is_none());
    assert_eq!(editor.url, "u");
}

#[test]
fn application_state_moves() {
    let mut app = AppState::default();
    assert_eq!(app.editor.method, "GET");
    assert!(!app.request_in_flight);
    assert!(app.curl_dialog.is_none());
    app.open_curl_dialog();
    app.curl_dialog.as_mut().unwrap().curl_input = "kept".to_string();
    app.open_curl_dialog();
    assert_eq!(app.curl_dialog.as_ref().unwrap().curl_input, "kept");
    app.editor.url = "http://z".to_string();
    let req = app.start_request();
    assert!(app.request_in_flight);
    assert_eq!(req.method, "GET");
    assert_eq!(req.url, "http://z");
    app.finish_request(Ok(ParsedResponse { status_code: 204, body: String::new() }));
    assert!(!app.request_in_flight);
    assert_eq!(app.response.status_code, "204");
    assert_eq!(app.response.output_log, "---\nGET http://z\nSTATUS CODE: 204\nRESPONSE:\n\n");
    assert_eq!(Action::RunRequest, Action::RunRequest);
    assert_ne!(Action::Nothing, Action::RunRequest);
}

#[test]
fn loaded_payload_body_is_not_blank() {
    for text in ["null", "true", "-1.5", "\"  a  \"", "[]", "{}", "[1, {\"k\": \" \"}]"] {
        let mut editor = RequestEditorState::default();
        editor.apply_saved_payload(SavedPayload {
            url: String::new(),
            method: String::new(),
            payload: Some(json(text)),
        });
        assert!(!editor.body_text.is_empty());
        assert_eq!(editor.body_text.trim(), editor.body_text);
    }
    let mut editor = RequestEditorState::default();
    editor.apply_saved_payload(SavedPayload {
        url: String::new(),
        method: String::new(),
        payload: Some(json("\"  a  \"")),
    });
    assert_eq!(editor.body_text, "\"  a  \"");
}

#[test]
fn one_line_text_normalises_to_its_trim() {
    for text in ["", "   ", "  curl 'x'  -X GET\t", "\u{a0}a b\u{3000}", "x\r"] {
        assert_eq!(normalize(text), text.trim());
    }
}

#[test]
fn logged_payload_is_its_pretty_json() {
    let mut state = ResponseOutputState::default();
    let payload = json("{\"a\": 1}");
    update_from_result(
        &mut state,
        "POST",
        "http://x",
        Some(&payload),
        Ok(ParsedResponse { status_code: 201, body: "created".to_string() }),
    );
    assert_eq!(state.status_code, "201");
    assert_eq!(
        state.output_log,
        "---\nPOST http://x\nPAYLOAD:\n{\n  \"a\": 1\n}\nSTATUS CODE: 201\nRESPONSE:\ncreated\n"
    );
}

#[test]
fn imported_payload_becomes_pretty_body_and_reads_back() {
    let data = parse_curl_command("curl 'u' --data '{\"b\":[true,null],\"a\":\"s\"}'");
    let mut editor = RequestEditorState::default();
    editor.apply_full(data.clone());
    assert_eq!(
        editor.body_text,
        "{\n  \"a\": \"s\",\n  \"b\": [\n    true,\n    null\n  ]\n}"
    );
    assert_eq!(editor.current_request().payload, data.payload);
}

#[test]
fn imported_payload_body_reads_back_as_json() {
    let deep = format!("{}1{}", "[".repeat(127), "]".repeat(127));
    for arg in [
        "[1.7976931348623157e308, -1.7976931348623157e308]",
        "[5e-324, 1e308, 0.1, -0.0, 18446744073709551615, -9223372036854775808]",
        "{\"k\": \"tab\\t quote\\\" slash\\\\ \\u0001 \\ud83d\\ude00\"}",
        deep.as_str(),
    ] {
        let data = parse_curl_command(&format!("curl 'u' --data '{}'", arg));
        assert!(data.payload.is_some(), "{}", arg);
        let mut editor = RequestEditorState::default();
        editor.apply_full(data);
        assert!(editor.current_request().payload.is_some(), "{}", arg);
    }
}
