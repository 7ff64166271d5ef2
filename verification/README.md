# api_test_helper

A desktop helper for trying out REST APIs: a request is built by hand or
imported from a pasted `curl` command, sent, and its response logged.

The library (`src/`) holds the logic, with its behaviour stated in Verus
contracts and proved:

- `text`: white space, trimming, and folding a multi-line command onto one line.
- `pattern`: the flags of the curl import format (`-X`, `curl '…'`, `-H`,
  `-b`, `--data`, `--data-raw`, `--data-binary`), matched as a leftmost-first
  backtracking regular-expression search matches them.
- `request_helper`: reading method, URL, headers, cookies and JSON payload
  from a command.
- `string_map`: text maps with one entry per key, later bindings winning.
- `http`: what is sent for a request, and how a response body becomes text.
- `request_editor`, `response_output`, `curl_dialog`, `app_state`: the state of the
  application's panels and how each action changes it.
- `laws`: properties that hold across these functions.
- `json`, `std_text`, `word_class`: the calls into `serde_json`, the standard
  library and `regex_syntax`, with the contracts they are trusted to meet.

`app/` is the program around it: the egui window, file dialogs, file
reading and writing, and sending requests with `reqwest`.
