//! The curl import dialog: its text and what each of its buttons does.
use vstd::prelude::*;
use crate::request_editor::{map_text, payload_body_text, RequestEditorState};
use crate::request_helper::{cookie_entries, header_entries, method_text, payload_value, url_text};
use crate::text::normalized;

verus! {

/// The pasted command text.
#[derive(Debug)]
pub struct CurlDialogState {
    pub curl_input: String,
}

impl Default for CurlDialogState {
    fn default() -> (d: Self)
        ensures
            d.curl_input@ == Seq::<char>::empty(),
    {
        CurlDialogState { curl_input: String::new() }
    }
}

/// The buttons of the dialog.
#[derive(Debug, Clone, Copy, PartialEq, Eq, Structural)]
pub enum CurlDialogChoice {
    /// Import the whole command.
    ParseFull,
    /// Import only its headers and cookies.
    ParseHeadersOnly,
    /// Close without importing.
    Cancel,
}

/// Carries out a choice made in the dialog: imports the pasted command
/// into the editor as chosen, then closes the dialog.  Without an open
/// dialog nothing happens.
pub fn resolve(
    dialog: &mut Option<CurlDialogState>,
    editor: &mut RequestEditorState,
    choice: CurlDialogChoice,
)
    ensures
        match *old(dialog) {
            Some(d) => {
                &&& *final(dialog) is None
                &&& match choice {
                    CurlDialogChoice::ParseFull => {
                        let s = normalized(d.curl_input@);
                        &&& final(editor).method@ == method_text(s)
                        &&& final(editor).url@ == url_text(s)
                        &&& final(editor).headers_text@ == map_text(header_entries(s))
                        &&& final(editor).cookies_text@ == map_text(cookie_entries(s))
                        &&& final(editor).body_text@ == payload_body_text(payload_value(s))
                    },
                    CurlDialogChoice::ParseHeadersOnly => {
                        let s = normalized(d.curl_input@);
                        &&& final(editor).headers_text@ == map_text(header_entries(s))
                        &&& final(editor).cookies_text@ == map_text(cookie_entries(s))
                        &&& final(editor).method == old(editor).method
                        &&& final(editor).url == old(editor).url
                        &&& final(editor).body_text == old(editor).body_text
                    },
                    CurlDialogChoice::Cancel => *final(editor) == *old(editor),
                }
            },
            None => *final(dialog) is None && *final(editor) == *old(editor),
        },
{
    match dialog {
        Some(state) => {
            match choice {
                CurlDialogChoice::ParseFull => {
                    let parsed = crate::request_helper::parse_curl_command(state.curl_input.as_str());
                    editor.apply_full(parsed);
                },
                CurlDialogChoice::ParseHeadersOnly => {
                    let parsed = crate::request_helper::parse_headers_only(state.curl_input.as_str());
                    editor.apply_headers_only(parsed);
                },
                CurlDialogChoice::Cancel => {},
            }
        },
        None => {},
    }
    *dialog = None;
}

} // verus!
