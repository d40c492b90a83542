//! Error taxonomy of the download engine. Each per-video pipeline resolves
//! to one of these; the orchestrator tags it with the video's ordinal and
//! hands it to the error sink without aborting sibling pipelines.
use vstd::prelude::*;

verus! {

use vstd::string::StrSliceExecFns;
use vstd::string::StringSliceAdditionalSpecFns;

use crate::text::append_bytes;

/// One failure class per stage of a pipeline.
#[derive(Debug)]
pub enum DownloadError {
    /// No mirror host answered the liveness probe.
    Connectivity,
    /// A network fetch failed on every allowed attempt; carries the
    /// operation's diagnostic name.
    Fetch { operation: Vec<u8> },
    /// Malformed manifest or malformed playlist structure.
    Parse { detail: Vec<u8> },
    /// A directory or file could not be created.
    Filesystem { detail: Vec<u8> },
    /// The muxer exited abnormally or left diagnostic text behind.
    Mux { log: Vec<u8> },
    /// The task observed the session's cancellation signal before finishing.
    Cancelled,
}

impl DownloadError {
    /// The human-readable text reported to the error sink.
    pub open spec fn spec_message(&self) -> Seq<u8> {
        match self {
            DownloadError::Connectivity => {
                "Failed to connect to any hosts! Check your connection and try again.".spec_bytes()
            },
            DownloadError::Fetch { operation } => "Failed to fetch data: ".spec_bytes()
                + operation@,
            DownloadError::Parse { detail } => detail@,
            DownloadError::Filesystem { detail } => detail@,
            DownloadError::Mux { log } => log@,
            DownloadError::Cancelled => "Cancelled".spec_bytes(),
        }
    }

    pub fn message(&self) -> (r: Vec<u8>)
        ensures
            r@ == self.spec_message(),
    {
        match self {
            DownloadError::Connectivity => {
                ("Failed to connect to any hosts! Check your connection and try again.").as_bytes_vec()
            },
            DownloadError::Fetch { operation } => {
                let mut r = ("Failed to fetch data: ").as_bytes_vec();
                append_bytes(&mut r, operation);
                r
            },
            DownloadError::Parse { detail } => {
                let mut r: Vec<u8> = Vec::new();
                append_bytes(&mut r, detail);
                r
            },
            DownloadError::Filesystem { detail } => {
                let mut r: Vec<u8> = Vec::new();
                append_bytes(&mut r, detail);
                r
            },
            DownloadError::Mux { log } => {
                let mut r: Vec<u8> = Vec::new();
                append_bytes(&mut r, log);
                r
            },
            DownloadError::Cancelled => ("Cancelled").as_bytes_vec(),
        }
    }
}

/// Plain message-carrying error of the historical decrypting pipeline.
#[derive(Debug)]
pub struct Error {
    pub error_string: String,
}

impl Error {
    pub fn new(message: String) -> (r: Error)
        ensures
            r.error_string == message,
    {
        Error { error_string: message }
    }
}

} // verus!
