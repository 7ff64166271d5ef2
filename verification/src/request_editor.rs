//! The editable request: method, URL, and headers, cookies and body as
//! JSON texts; filled from imports and payload files, read back into a
//! request.
use vstd::prelude::*;
use crate::json::{json_text_valid, parse_json_string_object, parse_json_text, parsed_json, pretty_json, pretty_json_object, pretty_object_text, pretty_value_text, string_object_members};
use crate::request_helper::{RequestData, SavedPayload};
use crate::string_map::{from_pairs, lemma_from_pairs, map_from_pairs, value_for, Entries, StringMap};
use crate::text::{expand_tabs, tabs_expanded, trim, trim_end, trim_start, trim_text};

verus! {

/// The text a map is edited as: empty for no entries, otherwise the
/// pretty-printed JSON object of its entries.
pub open spec fn map_text(e: Entries) -> Seq<char> {
    if e.len() == 0 {
        Seq::empty()
    } else {
        pretty_object_text(e)
    }
}

/// The map an edited text stands for: none for blank text or text that is
/// not a JSON object of strings, otherwise its members.
pub open spec fn map_of_text(s: Seq<char>) -> Entries {
    let t = trim(s);
    if t.len() == 0 {
        Seq::empty()
    } else {
        match string_object_members(t) {
            Some(m) => from_pairs(m),
            None => Seq::empty(),
        }
    }
}

/// Whether an edited body text stands for a JSON value: it is not blank
/// and is valid JSON.
pub open spec fn body_has_value(s: Seq<char>) -> bool {
    trim(s).len() > 0 && json_text_valid(trim(s))
}

/// The JSON value that an edited body text stands for: the value read from
/// the trimmed text, when it is not blank and is valid JSON.
pub open spec fn body_value(s: Seq<char>) -> Option<serde_json::Value> {
    if body_has_value(s) {
        Some(parsed_json(trim(s)))
    } else {
        None
    }
}

/// The body text the editor shows for a payload: empty without one,
/// otherwise the pretty-printed JSON of the value.
pub open spec fn payload_body_text(p: Option<serde_json::Value>) -> Seq<char> {
    match p {
        Some(v) => pretty_value_text(v),
        None => Seq::empty(),
    }
}

/// The editor's text of a map.  Reading the text back gives the same map:
/// each key has the same value.
pub fn pretty_map(map: &StringMap) -> (r: String)
    ensures
        r@ == map_text(map@),
        forall|k: Seq<char>| value_for(map_of_text(r@), k) == value_for(map@, k),
{
    if map.is_empty() {
        return String::new();
    }
    let entries = map.entries();
    let r = pretty_json_object(entries);
    proof {
        assert(trim_start(r@) == r@);
        assert(trim_end(r@) == r@);
        assert forall|k: Seq<char>| value_for(map_of_text(r@), k) == value_for(map@, k) by {
            lemma_from_pairs(string_object_members(r@).unwrap(), k);
        }
    }
    r
}

/// The map that an edited text stands for.
pub fn parse_map(s: &str) -> (r: StringMap)
    ensures
        r@ == map_of_text(s@),
{
    let t = trim_text(s);
    if t.as_str().is_empty() {
        return StringMap::new();
    }
    match parse_json_string_object(t.as_str()) {
        Some(members) => map_from_pairs(members),
        None => StringMap::new(),
    }
}

/// The JSON value that an edited body text stands for.
pub fn parse_json_value(s: &str) -> (r: Option<serde_json::Value>)
    ensures
        r == body_value(s@),
{
    let t = trim_text(s);
    if t.as_str().is_empty() {
        None
    } else {
        parse_json_text(t.as_str())
    }
}

/// The editor's body text for a payload: empty without one, otherwise the
/// pretty-printed JSON, which is neither empty nor surrounded by white
/// space.
fn payload_text(payload: &Option<serde_json::Value>) -> (r: String)
    ensures
        r@ == payload_body_text(*payload),
        payload is Some ==> r@.len() > 0 && trim(r@) == r@,
{
    match payload {
        Some(v) => pretty_json(v),
        None => String::new(),
    }
}

/// The editor's fields: method, URL, and headers, cookies and body as JSON
/// texts.
#[derive(Debug)]
pub struct RequestEditorState {
    pub method: String,
    pub url: String,
    pub headers_text: String,
    pub cookies_text: String,
    pub body_text: String,
}

impl Default for RequestEditorState {
    fn default() -> (e: Self)
        ensures
            e.method@ == Seq::<char>::empty(),
            e.url@ == Seq::<char>::empty(),
            e.headers_text@ == Seq::<char>::empty(),
            e.cookies_text@ == Seq::<char>::empty(),
            e.body_text@ == Seq::<char>::empty(),
    {
        RequestEditorState {
            method: String::new(),
            url: String::new(),
            headers_text: String::new(),
            cookies_text: String::new(),
            body_text: String::new(),
        }
    }
}

/// `after` holds everything of `data`: method, URL, the texts of the
/// headers and cookies (which read back as the same maps), and the body
/// text of the payload (not blank and without surrounding white space when
/// there is a payload).
pub open spec fn filled_from(data: RequestData, after: RequestEditorState) -> bool {
    &&& after.method@ == data.method@
    &&& after.url@ == data.url@
    &&& after.headers_text@ == map_text(data.headers@)
    &&& after.cookies_text@ == map_text(data.cookies@)
    &&& forall|k: Seq<char>|
        value_for(map_of_text(after.headers_text@), k) == value_for(data.headers@, k)
    &&& forall|k: Seq<char>|
        value_for(map_of_text(after.cookies_text@), k) == value_for(data.cookies@, k)
    &&& after.body_text@ == payload_body_text(data.payload)
    &&& data.payload is Some ==> after.body_text@.len() > 0 && trim(after.body_text@)
        == after.body_text@
}

/// `req` is the request that the editor `e` stands for.
pub open spec fn request_of(e: RequestEditorState, req: RequestData) -> bool {
    &&& req.method@ == e.method@
    &&& req.url@ == e.url@
    &&& req.headers@ == map_of_text(e.headers_text@)
    &&& req.cookies@ == map_of_text(e.cookies_text@)
    &&& req.payload == body_value(e.body_text@)
}

/// `saved` holds the editor's URL, method and body value.
pub open spec fn saved_from(e: RequestEditorState, saved: SavedPayload) -> bool {
    &&& saved.url@ == e.url@
    &&& saved.method@ == e.method@
    &&& saved.payload == body_value(e.body_text@)
}

/// `after` is `before` with method, URL and body taken from `saved` (the
/// body as the pretty JSON of its payload, or empty); the header and cookie
/// texts are kept.
pub open spec fn loaded_from(
    before: RequestEditorState,
    saved: SavedPayload,
    after: RequestEditorState,
) -> bool {
    &&& after.method@ == saved.method@
    &&& after.url@ == saved.url@
    &&& after.body_text@ == payload_body_text(saved.payload)
    &&& after.headers_text@ == before.headers_text@
    &&& after.cookies_text@ == before.cookies_text@
}

impl RequestEditorState {
    /// Fills every field from an imported request.
    pub fn apply_full(&mut self, data: RequestData)
        ensures
            filled_from(data, *final(self)),
    {
        self.headers_text = pretty_map(&data.headers);
        self.cookies_text = pretty_map(&data.cookies);
        self.body_text = payload_text(&data.payload);
        self.method = data.method;
        self.url = data.url;
    }

    /// Fills only the header and cookie texts from an imported request.
    pub fn apply_headers_only(&mut self, data: RequestData)
        ensures
            final(self).headers_text@ == map_text(data.headers@),
            final(self).cookies_text@ == map_text(data.cookies@),
            final(self).method == old(self).method,
            final(self).url == old(self).url,
            final(self).body_text == old(self).body_text,
    {
        self.headers_text = pretty_map(&data.headers);
        self.cookies_text = pretty_map(&data.cookies);
    }

    /// The request that the editor's fields stand for.
    pub fn current_request(&self) -> (req: RequestData)
        ensures
            request_of(*self, req),
    {
        RequestData {
            method: self.method.clone(),
            url: self.url.clone(),
            headers: parse_map(self.headers_text.as_str()),
            cookies: parse_map(self.cookies_text.as_str()),
            payload: parse_json_value(self.body_text.as_str()),
        }
    }

    /// What saving the payload writes: URL, method and the body's JSON value.
    pub fn saved_payload(&self) -> (saved: SavedPayload)
        ensures
            saved_from(*self, saved),
    {
        SavedPayload {
            url: self.url.clone(),
            method: self.method.clone(),
            payload: parse_json_value(self.body_text.as_str()),
        }
    }

    /// Takes method, URL and body from a loaded payload file.
    pub fn apply_saved_payload(&mut self, saved: SavedPayload)
        ensures
            loaded_from(*old(self), saved, *final(self)),
    {
        self.body_text = payload_text(&saved.payload);
        self.method = saved.method;
        self.url = saved.url;
    }

    /// Replaces every tab of the body text by four spaces.
    pub fn expand_body_tabs(&mut self)
        ensures
            final(self).body_text@ == tabs_expanded(old(self).body_text@),
            final(self).method == old(self).method,
            final(self).url == old(self).url,
            final(self).headers_text == old(self).headers_text,
            final(self).cookies_text == old(self).cookies_text,
    {
        self.body_text = expand_tabs(self.body_text.as_str());
    }
}

} // verus!
