//! The flag matchers agree with the regular expressions that describe the
//! curl import format, on many generated command texts.
use std::collections::HashMap;

use api_test_helper::request_helper::{
    extract_cookies, extract_headers, extract_method, extract_url, parse_curl_command,
};
use api_test_helper::string_map::StringMap;
use api_test_helper::text::normalize;
use regex::Regex;

struct Reference {
    method: Regex,
    url: Regex,
    header: Regex,
    cookie: Regex,
    data: Regex,
}

impl Reference {
    fn new() -> Self {
        Reference {
            method: Regex::new(r"-X\s+(\w+)").unwrap(),
            url: Regex::new(r"curl\s+'([^']+)'").unwrap(),
            header: Regex::new(r"-H\s+'([^:]+):\s*([^']+)'").unwrap(),
            cookie: Regex::new(r"-b\s+'([^']+)'").unwrap(),
            data: Regex::new(r"--data(?:-raw|-binary)?\s+'([^']+)'").unwrap(),
        }
    }

    fn normalize(&self, input: &str) -> String {
        input.lines().map(str::trim).collect::<Vec<_>>().join(" ")
    }

    fn method(&self, input: &str) -> String {
        if let Some(cap) = self.method.captures(input) {
            return cap[1].to_uppercase();
        }
        if self.data.is_match(input) {
            "POST".to_string()
        } else {
            "GET".to_string()
        }
    }

    fn url(&self, input: &str) -> String {
        self.url.captures(input).map(|c| c[1].to_string()).unwrap_or_default()
    }

    fn headers(&self, input: &str) -> HashMap<String, String> {
        self.header
            .captures_iter(input)
            .map(|c| (c[1].trim().to_string(), c[2].trim().to_string()))
            .collect()
    }

    fn cookies(&self, input: &str) -> HashMap<String, String> {
        self.cookie
            .captures(input)
            .map(|c| {
                c[1].split(';')
                    .filter_map(|pair| {
                        let mut parts = pair.trim().splitn(2, '=');
                        let k = parts.next()?.trim().to_string();
                        let v = parts.next().unwrap_or("").trim().to_string();
                        Some((k, v))
                    })
                    .collect()
            })
            .unwrap_or_default()
    }

    fn data(&self, input: &str) -> Option<String> {
        self.data.captures(input).map(|c| c[1].to_string())
    }
}

fn as_hash_map(m: &StringMap) -> HashMap<String, String> {
    let mut out = HashMap::new();
    for (k, v) in m.entries() {
        assert!(out.insert(k.clone(), v.clone()).is_none(), "key repeated: {k:?}");
    }
    out
}

struct Lcg(u64);

impl Lcg {
    fn next(&mut self) -> u64 {
        self.0 = self.0.wrapping_mul(6364136223846793005).wrapping_add(1442695040888963407);
        self.0 >> 33
    }
    fn pick<'a>(&mut self, items: &[&'a str]) -> &'a str {
        items[(self.next() % items.len() as u64) as usize]
    }
}

const PIECES: &[&str] = &[
    "curl", " ", "  ", "\t", "\n", "\r\n", "'", "''", ":", ";", "=", "-X", "-H", "-b", "--data",
    "--data-raw", "--data-binary", "-raw", "-binary", "post", "Put", "get", "x_1", "é", "ß",
    "\u{a0}", "\u{2003}", "https://e.com/a?b=c", "Accept", "Content-Type", "a=1", " b = 2 ",
    "{\"k\":1}", "[1,2]", "not-json", "\\", "-", "X", "H", "b", "data", "'x'", "'a: b'",
    "' k : v '", "'n:'", "'m: '", "'c=1;d=2'", "';;'", "'=v'", "'k='", "\u{1680}",
    "-H 'A: b' ", "-H 'x:y' ", "-H 'C:  ' ", "-b 'a=1; b = 2; a=3' ", "-b '' ", "-X get ",
    "--data '{\"k\":1}' ", "--data-raw '[1,2]' ", "--data-binary ' 3 ' ", "--data 'x' ",
    "'{\"k\":1}'", "curl 'https://h' ", " -X  \u{2003}Del ",
];

fn generated(rng: &mut Lcg) -> String {
    let n = 1 + rng.next() % 24;
    let mut s = String::new();
    for _ in 0..n {
        s.push_str(rng.pick(PIECES));
    }
    s
}

fn check_one(r: &Reference, input: &str) {
    let norm = r.normalize(input);
    assert_eq!(normalize(input), norm, "normalize {input:?}");
    assert_eq!(extract_method(&norm), r.method(&norm), "method {norm:?}");
    assert_eq!(extract_url(&norm), r.url(&norm), "url {norm:?}");
    assert_eq!(as_hash_map(&extract_headers(&norm)), r.headers(&norm), "headers {norm:?}");
    assert_eq!(as_hash_map(&extract_cookies(&norm)), r.cookies(&norm), "cookies {norm:?}");
    let expected_payload =
        r.data(&norm).and_then(|t| serde_json::from_str::<serde_json::Value>(&t).ok());
    assert_eq!(parse_curl_command(input).payload, expected_payload, "payload {norm:?}");
    assert_eq!(extract_method(input), r.method(input), "raw method {input:?}");
    assert_eq!(extract_url(input), r.url(input), "raw url {input:?}");
    assert_eq!(as_hash_map(&extract_headers(input)), r.headers(input), "raw headers {input:?}");
    assert_eq!(as_hash_map(&extract_cookies(input)), r.cookies(input), "raw cookies {input:?}");
}

#[test]
fn flag_matchers_agree_with_regular_expressions() {
    let r = Reference::new();
    let mut rng = Lcg(0x5eed);
    let mut seen = [0usize; 5];
    for _ in 0..3000 {
        let input = generated(&mut rng);
        check_one(&r, &input);
        let norm = r.normalize(&input);
        seen[0] += r.method.is_match(&norm) as usize;
        seen[1] += r.url.is_match(&norm) as usize;
        seen[2] += r.header.is_match(&norm) as usize;
        seen[3] += r.cookie.is_match(&norm) as usize;
        seen[4] += r.data(&norm).and_then(|t| serde_json::from_str::<serde_json::Value>(&t).ok()).is_some() as usize;
    }
    assert!(seen.iter().all(|&n| n >= 200), "too few matches: {seen:?}");
}

#[test]
fn flag_matchers_agree_on_edge_cases() {
    let r = Reference::new();
    for input in [
        "",
        "\n",
        "a\n",
        " \n \n",
        "-X  \u{a0} post",
        "-X",
        "-X 'x'",
        "-H 'a:'",
        "-H 'a: '",
        "-H 'a:  '",
        "-H 'a::b'",
        "-H 'a'b: c'",
        "-H 'x: 1' -H 'x: 2'",
        "-b 'a=1;a=2'",
        "-b ' ; = ; a = b = c '",
        "--data-raw '1' --data '2'",
        "--data-raw'1' '2'",
        "--data-binaryX '3'",
        "curl  \t 'u' curl 'v'",
        "curl ''",
    ] {
        check_one(&r, input);
    }
}

#[test]
fn word_class_agrees_with_regular_expression() {
    let r = Reference::new();
    for c in (0u32..=0x10FFFF).filter_map(char::from_u32) {
        let input = format!("-X {c}");
        assert_eq!(extract_method(&input), r.method(&input), "{:?}", c);
    }
}
