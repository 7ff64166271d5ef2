//! What is sent for a request: the method, the URL, the header lines with
//! the cookies folded into one `Cookie` header, and the JSON body; and how
//! the bytes of a response become its text.
use vstd::prelude::*;
use vstd::string::StringExecFns;
use crate::json::{json_bytes_valid, parse_json_bytes, parsed_json_bytes, pretty_json, pretty_value_text};
use crate::request_helper::{ParsedResponse, RequestData};
use crate::std_text::{decode_utf8_lossy, utf8_lossy};
use crate::string_map::{entry_views, Entries, StringMap};

verus! {

/// The methods a request can be sent with.
#[derive(Debug, Clone, Copy, PartialEq, Eq, Structural)]
pub enum HttpMethod {
    Get,
    Post,
    Put,
    Delete,
}

/// The method that a method text names; the names are matched exactly.
pub open spec fn http_method_of(m: Seq<char>) -> Option<HttpMethod> {
    if m == "GET"@ {
        Some(HttpMethod::Get)
    } else if m == "POST"@ {
        Some(HttpMethod::Post)
    } else if m == "PUT"@ {
        Some(HttpMethod::Put)
    } else if m == "DELETE"@ {
        Some(HttpMethod::Delete)
    } else {
        None
    }
}

/// Whether a request with this method carries its JSON payload as body.
pub open spec fn sends_body(m: HttpMethod) -> bool {
    m == HttpMethod::Post || m == HttpMethod::Put
}

/// The `Cookie` header value: the `name=value` items joined by `"; "`.
pub open spec fn cookie_header_text(e: Entries) -> Seq<char>
    decreases e.len(),
{
    if e.len() == 0 {
        Seq::empty()
    } else if e.len() == 1 {
        e[0].0 + "="@ + e[0].1
    } else {
        cookie_header_text(e.drop_last()) + "; "@ + e.last().0 + "="@ + e.last().1
    }
}

/// The header lines sent: the request's headers, then a `Cookie` line when
/// there are cookies.
pub open spec fn sent_headers(headers: Entries, cookies: Entries) -> Entries {
    if cookies.len() == 0 {
        headers
    } else {
        headers.push(("Cookie"@, cookie_header_text(cookies)))
    }
}

/// A request ready to be sent.
#[derive(Debug)]
pub struct HttpPlan {
    pub method: HttpMethod,
    pub url: String,
    pub headers: Vec<(String, String)>,
    pub json_body: Option<serde_json::Value>,
}

/// Why a request cannot be sent.
#[derive(Debug, Clone, PartialEq, Eq)]
pub enum RequestError {
    /// The method is none of GET, POST, PUT and DELETE.
    UnsupportedMethod(String),
}

impl RequestError {
    /// The text of the error.
    pub fn message(&self) -> (m: String)
        ensures
            match self {
                RequestError::UnsupportedMethod(name) => m@ == "Unsupported HTTP method: "@
                    + name@,
            },
    {
        match self {
            RequestError::UnsupportedMethod(name) => {
                let mut m = String::from_str("Unsupported HTTP method: ");
                m.append(name.as_str());
                m
            },
        }
    }
}

/// The `Cookie` header value of the cookies.
pub fn cookie_header(cookies: &StringMap) -> (r: String)
    ensures
        r@ == cookie_header_text(cookies@),
{
    let entries = cookies.entries();
    let mut r = String::new();
    let mut i: usize = 0;
    while i < entries.len()
        invariant
            i <= entries.len(),
            entry_views(entries@) == cookies@,
            r@ == cookie_header_text(cookies@.take(i as int)),
        decreases entries.len() - i,
    {
        proof {
            assert(cookies@.take(i + 1).drop_last() =~= cookies@.take(i as int));
            assert(cookies@[i as int] == (entries@[i as int].0@, entries@[i as int].1@));
        }
        if i > 0 {
            r.append("; ");
        }
        r.append(entries[i].0.as_str());
        r.append("=");
        r.append(entries[i].1.as_str());
        i = i + 1;
    }
    proof {
        assert(cookies@.take(i as int) =~= cookies@);
    }
    r
}

/// The request as it is to be sent, or the error of an unsupported method.
pub fn plan_http_request(req: RequestData) -> (r: Result<HttpPlan, RequestError>)
    ensures
        match r {
            Ok(p) => {
                &&& http_method_of(req.method@) == Some(p.method)
                &&& p.url@ == req.url@
                &&& entry_views(p.headers@) == sent_headers(req.headers@, req.cookies@)
                &&& p.json_body == if sends_body(p.method) {
                    req.payload
                } else {
                    None
                }
            },
            Err(e) => http_method_of(req.method@) is None && e == RequestError::UnsupportedMethod(
                req.method,
            ),
        },
{
    let method = if req.method == String::from_str("GET") {
        HttpMethod::Get
    } else if req.method == String::from_str("POST") {
        HttpMethod::Post
    } else if req.method == String::from_str("PUT") {
        HttpMethod::Put
    } else if req.method == String::from_str("DELETE") {
        HttpMethod::Delete
    } else {
        return Err(RequestError::UnsupportedMethod(req.method));
    };
    let cookie_line = cookie_header(&req.cookies);
    let has_cookies = !req.cookies.is_empty();
    let ghost header_view = req.headers@;
    let mut headers = req.headers.into_entries();
    if has_cookies {
        let ghost before = headers@;
        headers.push((String::from_str("Cookie"), cookie_line));
        proof {
            assert(entry_views(headers@) =~= entry_views(before).push(
                ("Cookie"@, cookie_header_text(req.cookies@)),
            ));
        }
    }
    let sends = match method {
        HttpMethod::Post | HttpMethod::Put => true,
        _ => false,
    };
    let json_body = if sends {
        req.payload
    } else {
        None
    };
    Ok(HttpPlan { method, url: req.url, headers, json_body })
}

/// The response with its body as text: a JSON body pretty-printed, any
/// other body decoded as UTF-8 with invalid sequences replaced.
pub fn parsed_response(status_code: u16, bytes: &[u8]) -> (r: ParsedResponse)
    ensures
        r.status_code == status_code,
        r.body@ == (if json_bytes_valid(bytes@) {
            pretty_value_text(parsed_json_bytes(bytes@))
        } else {
            utf8_lossy(bytes@)
        }),
{
    match parse_json_bytes(bytes) {
        Some(value) => ParsedResponse { status_code, body: pretty_json(&value) },
        None => ParsedResponse { status_code, body: decode_utf8_lossy(bytes) },
    }
}

} // verus!
