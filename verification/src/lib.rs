//! Parsing of pasted curl commands into requests, and the state and
//! decisions of a small REST request helper.
pub mod app_state;
pub mod curl_dialog;
pub mod http;
pub mod json;
pub mod laws;
pub mod pattern;
pub mod request_editor;
pub mod request_helper;
pub mod response_output;
pub mod std_text;
pub mod string_map;
pub mod text;
pub mod word_class;
