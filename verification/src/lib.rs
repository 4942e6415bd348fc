//! A document sanitizer's logic, verified: recognising what an input
//! document is, choosing how it becomes a PDF, building the command lines of
//! the sanitizing container, reporting progress, localising messages, and
//! serving conversions over HTTP.
//!
//! - `text`, `paths`, `format`: characters, paths and run-time templates.
//! - `mimetypes`, `conversion`: document types and conversions.
//! - `containers`, `runner`, `client`, `progress`, `pipeline`: running the
//!   sanitizer and reporting on it.
//! - `options`, `batch`, `viewers`: options, settings, batches and PDF
//!   viewers of the desktop application.
//! - `webserver`, `requests`, `httpclient`: the web server and its client.
//! - `l10n`, `ocrlang`: translations and OCR languages.
use vstd::prelude::*;

pub mod text;
pub mod paths;
pub mod format;
pub mod mimetypes;
pub mod webserver;
pub mod mofile;
pub mod l10n;
pub mod ocrlang;
pub mod containers;
pub mod progress;
pub mod conversion;
pub mod runner;
pub mod options;
pub mod client;
pub mod requests;
pub mod httpclient;
pub mod pipeline;
pub mod batch;
pub mod viewers;

verus! {
} // verus!
