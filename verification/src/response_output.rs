//! The response panel: the last status code and a log of every request's
//! outcome.
use vstd::prelude::*;
use vstd::string::{StrSliceExecFns, StringExecFns};
use crate::json::{pretty_json, pretty_value_text};
use crate::request_helper::ParsedResponse;

verus! {

/// The decimal digit `d` as a character.
pub open spec fn digit_char(d: nat) -> char {
    (48 + d) as char
}

/// The decimal numeral of `n`, without leading zeros.
pub open spec fn decimal(n: nat) -> Seq<char>
    decreases n,
{
    if n < 10 {
        seq![digit_char(n)]
    } else {
        decimal(n / 10).push(digit_char(n % 10))
    }
}

/// Appends the decimal numeral of `n` to `out`.
fn push_decimal(out: &mut String, n: u16)
    ensures
        final(out)@ == old(out)@ + decimal(n as nat),
    decreases n,
{
    if n >= 10 {
        push_decimal(out, n / 10);
    }
    let d = (n % 10) as usize;
    let digits = "0123456789";
    proof {
        reveal_strlit("0123456789");
    }
    let one = digits.substring_char(d, d + 1);
    proof {
        assert(one@ =~= seq![digit_char(d as nat)]);
    }
    out.append(one);
}

/// The decimal numeral of `n`.
pub fn decimal_text(n: u16) -> (r: String)
    ensures
        r@ == decimal(n as nat),
{
    let mut r = String::new();
    push_decimal(&mut r, n);
    r
}

/// The status code field and the output log.
#[derive(Debug)]
pub struct ResponseOutputState {
    pub status_code: String,
    pub output_log: String,
}

impl Default for ResponseOutputState {
    fn default() -> (s: Self)
        ensures
            s.status_code@ == Seq::<char>::empty(),
            s.output_log@ == Seq::<char>::empty(),
    {
        ResponseOutputState { status_code: String::new(), output_log: String::new() }
    }
}

/// What the response panel asks for.
#[derive(Debug, Clone, Copy, PartialEq, Eq, Structural)]
pub enum Action {
    /// Nothing to do.
    Nothing,
    /// Run the request in the editor.
    RunRequest,
}

/// The log entry of a response, given the text of the payload line if
/// there is one: the request line, the payload, the status and the body.
pub open spec fn response_entry(
    method: Seq<char>,
    url: Seq<char>,
    payload_text: Option<Seq<char>>,
    resp_status: u16,
    resp_body: Seq<char>,
) -> Seq<char> {
    "---\n"@ + method + " "@ + url + "\n"@ + match payload_text {
        Some(p) => "PAYLOAD:\n"@ + p + "\n"@,
        None => Seq::empty(),
    } + "STATUS CODE: "@ + decimal(resp_status as nat) + "\nRESPONSE:\n"@ + resp_body + "\n"@
}

/// The log entry of a failed request.
pub open spec fn error_entry(message: Seq<char>) -> Seq<char> {
    "---\nERROR: "@ + message + "\n"@
}

impl ResponseOutputState {
    /// Empties the status code and the log.
    pub fn clear(&mut self)
        ensures
            final(self).status_code@ == Seq::<char>::empty(),
            final(self).output_log@ == Seq::<char>::empty(),
    {
        self.status_code = String::new();
        self.output_log = String::new();
    }
}

/// Records the outcome of a request: the status code (or `ERROR`) and a new
/// entry at the end of the log.
pub fn update_from_result(
    state: &mut ResponseOutputState,
    method: &str,
    url: &str,
    payload: Option<&serde_json::Value>,
    result: Result<ParsedResponse, String>,
)
    ensures
        final(state).output_log@.len() > old(state).output_log@.len(),
        final(state).output_log@.subrange(0, old(state).output_log@.len() as int) == old(
            state,
        ).output_log@,
        match result {
            Ok(resp) => {
                &&& final(state).status_code@ == decimal(resp.status_code as nat)
                &&& final(state).output_log@ == old(state).output_log@ + response_entry(
                    method@,
                    url@,
                    match payload {
                        Some(v) => Some(pretty_value_text(*v)),
                        None => None,
                    },
                    resp.status_code,
                    resp.body@,
                )
            },
            Err(e) => {
                &&& final(state).status_code@ == "ERROR"@
                &&& final(state).output_log@ == old(state).output_log@ + error_entry(e@)
            },
        },
{
    let ghost before = state.output_log@;
    proof {
        reveal_strlit("---\n");
        reveal_strlit("---\nERROR: ");
    }
    match result {
        Ok(resp) => {
            state.status_code = decimal_text(resp.status_code);
            let mut entry = String::from_str("---\n");
            entry.append(method);
            entry.append(" ");
            entry.append(url);
            entry.append("\n");
            let ghost mut p: Option<Seq<char>> = None;
            match payload {
                Some(v) => {
                    let text = pretty_json(v);
                    entry.append("PAYLOAD:\n");
                    entry.append(text.as_str());
                    entry.append("\n");
                    proof {
                        p = Some(text@);
                    }
                },
                None => {},
            }
            entry.append("STATUS CODE: ");
            let code = decimal_text(resp.status_code);
            entry.append(code.as_str());
            entry.append("\nRESPONSE:\n");
            entry.append(resp.body.as_str());
            entry.append("\n");
            proof {
                assert(entry@ =~= response_entry(method@, url@, p, resp.status_code, resp.body@));
            }
            state.output_log.append(entry.as_str());
            proof {
                assert(state.output_log@.subrange(0, before.len() as int) =~= before);
            }
        },
        Err(e) => {
            state.status_code = String::from_str("ERROR");
            let mut entry = String::from_str("---\nERROR: ");
            entry.append(e.as_str());
            entry.append("\n");
            state.output_log.append(entry.as_str());
            proof {
                assert(state.output_log@.subrange(0, before.len() as int) =~= before);
            }
        },
    }
}

} // verus!
