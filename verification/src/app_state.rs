//! The application's state and how it moves: opening the import dialog,
//! starting a request and taking in its result.
use vstd::prelude::*;
use vstd::string::StringExecFns;
use crate::curl_dialog::CurlDialogState;
use crate::json::pretty_value_text;
use crate::request_editor::{body_value, request_of, RequestEditorState};
use crate::request_helper::{ParsedResponse, RequestData};
use crate::response_output::{decimal, error_entry, response_entry, update_from_result, ResponseOutputState};

verus! {

/// The editor, the response panel, the import dialog when open, and
/// whether a request is under way.
#[derive(Debug)]
pub struct AppState {
    pub editor: RequestEditorState,
    pub response: ResponseOutputState,
    pub curl_dialog: Option<CurlDialogState>,
    pub request_in_flight: bool,
}

impl Default for AppState {
    fn default() -> (a: Self)
        ensures
            a.editor.method@ == "GET"@,
            a.editor.url@ == Seq::<char>::empty(),
            a.editor.headers_text@ == Seq::<char>::empty(),
            a.editor.cookies_text@ == Seq::<char>::empty(),
            a.editor.body_text@ == Seq::<char>::empty(),
            a.response.status_code@ == Seq::<char>::empty(),
            a.response.output_log@ == Seq::<char>::empty(),
            a.curl_dialog is None,
            !a.request_in_flight,
    {
        let mut editor = RequestEditorState::default();
        editor.method = String::from_str("GET");
        AppState {
            editor,
            response: ResponseOutputState::default(),
            curl_dialog: None,
            request_in_flight: false,
        }
    }
}

impl AppState {
    /// Opens the import dialog with an empty text, unless it is open.
    pub fn open_curl_dialog(&mut self)
        ensures
            final(self).curl_dialog is Some,
            old(self).curl_dialog is Some ==> final(self).curl_dialog == old(self).curl_dialog,
            old(self).curl_dialog is None ==> final(self).curl_dialog->0.curl_input@
                == Seq::<char>::empty(),
            final(self).editor == old(self).editor,
            final(self).response == old(self).response,
            final(self).request_in_flight == old(self).request_in_flight,
    {
        if self.curl_dialog.is_none() {
            self.curl_dialog = Some(CurlDialogState::default());
        }
    }

    /// Starts a request: marks it under way and hands out the request that
    /// the editor stands for.
    pub fn start_request(&mut self) -> (req: RequestData)
        ensures
            request_of(old(self).editor, req),
            final(self).request_in_flight,
            final(self).editor == old(self).editor,
            final(self).response == old(self).response,
            final(self).curl_dialog == old(self).curl_dialog,
    {
        let req = self.editor.current_request();
        self.request_in_flight = true;
        req
    }

    /// Takes in the result of the request under way: the response panel
    /// records it against the editor's request, and no request is under
    /// way any more.
    pub fn finish_request(&mut self, result: Result<ParsedResponse, String>)
        ensures
            !final(self).request_in_flight,
            final(self).editor == old(self).editor,
            final(self).curl_dialog == old(self).curl_dialog,
            old(self).response.output_log@.len() < final(self).response.output_log@.len(),
            final(self).response.output_log@.subrange(0, old(self).response.output_log@.len() as int)
                == old(self).response.output_log@,
            result matches Ok(resp) ==> final(self).response.status_code@ == decimal(
                resp.status_code as nat,
            ),
            result matches Err(e) ==> final(self).response.status_code@ == "ERROR"@,
            result matches Err(e) ==> final(self).response.output_log@ == old(
                self,
            ).response.output_log@ + error_entry(e@),
            result matches Ok(resp) ==> final(self).response.output_log@ == old(
                self,
            ).response.output_log@ + response_entry(
                old(self).editor.method@,
                old(self).editor.url@,
                match body_value(old(self).editor.body_text@) {
                    Some(v) => Some(pretty_value_text(v)),
                    None => None,
                },
                resp.status_code,
                resp.body@,
            ),
    {
        let req = self.editor.current_request();
        update_from_result(
            &mut self.response,
            req.method.as_str(),
            req.url.as_str(),
            req.payload.as_ref(),
            result,
        );
        self.request_in_flight = false;
    }
}

} // verus!
