//! The command-line client of the web server: its settings, the addresses
//! it talks to, how it follows the progress of a request, and where it
//! writes the result.
use vstd::prelude::*;
use crate::text::{decimal, push_str, same_text, u64_to_text};
use crate::paths::{join_path, join_path_text, path_file_stem, stem_of};

verus! {

/// The settings of the client.
pub struct AppConfig {
    pub ocr_lang: Option<String>,
    pub host: String,
    pub port: u16,
    pub file_suffix: String,
}

impl Default for AppConfig {
    /// The server on port 13000 of `localhost`, results suffixed `dgz`.
    fn default() -> (r: Self)
        ensures
            r.ocr_lang is None,
            r.host@ == "localhost"@,
            r.port == 13000,
            r.file_suffix@ == "dgz"@,
    {
        AppConfig { ocr_lang: None, host: "localhost".to_owned(), port: 13000, file_suffix: "dgz".to_owned() }
    }
}

/// The answer of the server to an upload.
pub struct UploadResponse {
    pub id: String,
    pub tracking_uri: String,
}

/// A result sent back by the server.
pub struct DownloadResponse {
    pub id: String,
    pub data: String,
}

/// The address `host:port` of the server.
pub open spec fn server_address_spec(host: Seq<char>, port: u16) -> Seq<char> {
    host + ":"@ + decimal(port as nat)
}

/// The address of the server.
pub fn server_address(host: &str, port: u16) -> (r: String)
    ensures
        r@ == server_address_spec(host@, port),
{
    let mut r = String::new();
    push_str(&mut r, host);
    push_str(&mut r, ":");
    let p = u64_to_text(port as u64);
    push_str(&mut r, p.as_str());
    r
}

/// The URL of the path `path` on the server at `addr`.
pub fn server_url(addr: &str, path: &str) -> (r: String)
    ensures
        r@ == "http://"@ + addr@ + path@,
{
    let mut r = String::new();
    push_str(&mut r, "http://");
    push_str(&mut r, addr);
    push_str(&mut r, path);
    r
}

/// What the client does with a notification of the server.
#[derive(PartialEq, Eq, Structural, Clone, Copy, Debug)]
pub enum TrackingAction {
    /// Show the progress line that the notification carries.
    ShowProgress,
    /// Stop following: the notification carries the download location.
    Download,
    /// Stop following: the notification carries the failure.
    Fail,
    /// Nothing to do.
    Ignore,
}

/// The action of a notification of event `event`.
pub open spec fn tracking_action_spec(event: Seq<char>) -> TrackingAction {
    if event == "processing_update"@ {
        TrackingAction::ShowProgress
    } else if event == "processing_success"@ {
        TrackingAction::Download
    } else if event == "processing_failure"@ {
        TrackingAction::Fail
    } else {
        TrackingAction::Ignore
    }
}

/// The action of a notification of event `event`.
pub fn tracking_action(event: &str) -> (r: TrackingAction)
    ensures
        r == tracking_action_spec(event@),
{
    if same_text(event, "processing_update") {
        TrackingAction::ShowProgress
    } else if same_text(event, "processing_success") {
        TrackingAction::Download
    } else if same_text(event, "processing_failure") {
        TrackingAction::Fail
    } else {
        TrackingAction::Ignore
    }
}

/// The client stops following a request exactly on the notifications that
/// the server sends last.
pub proof fn law_tracking_stops_on_final_events(event: Seq<char>)
    ensures
        (tracking_action_spec(event) == TrackingAction::Download || tracking_action_spec(event) == TrackingAction::Fail)
            <==> crate::webserver::is_final_event(event),
{
    reveal_strlit("processing_update");
    reveal_strlit("processing_success");
    reveal_strlit("processing_failure");
    assert("processing_update"@.len() != "processing_success"@.len());
    assert("processing_update"@.len() != "processing_failure"@.len());
}

/// Where the result of `input` is written where no output file is chosen:
/// `{stem}-{suffix}.pdf` in `output_dir`.
pub open spec fn result_path_spec(output_dir: Seq<char>, input: Seq<char>, file_suffix: Seq<char>) -> Option<Seq<char>> {
    match stem_of(input) {
        Some(stem) => Some(join_path(output_dir, stem + "-"@ + file_suffix + ".pdf"@)),
        None => None,
    }
}

/// Where the result of `input` is written: `output_path` where chosen,
/// otherwise beside the input in `output_dir`; `None` where the input has
/// no base name.
pub fn result_path(output_path: Option<String>, output_dir: &str, input: &str, file_suffix: &str) -> (r: Option<String>)
    ensures
        match output_path {
            Some(p) => r == Some(p),
            None => match result_path_spec(output_dir@, input@, file_suffix@) {
                Some(q) => r is Some && r->0@ == q,
                None => r is None,
            },
        },
{
    match output_path {
        Some(p) => Some(p),
        None => match path_file_stem(input) {
            Some(stem) => {
                let mut name = String::new();
                push_str(&mut name, stem.as_str());
                push_str(&mut name, "-");
                push_str(&mut name, file_suffix);
                push_str(&mut name, ".pdf");
                Some(join_path_text(output_dir, name.as_str()))
            },
            None => None,
        },
    }
}

} // verus!
