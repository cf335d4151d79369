//! The browser page's file commands: `open`, `dl`, `up`, `save`.
//!
//! Each text frame on the file endpoint names one command and carries a
//! bearer token, checked here like the control endpoint's. The dispatch is
//! verified; reading, walking and writing the filesystem is the unverified
//! shell's job, told what to do by a [`FileAction`].

use vstd::prelude::*;
use crate::auth::spec_token_valid;
use crate::auth::validate_token;
use crate::text::parse_usize;
use crate::text::spec_all_digits;
use crate::text::spec_decimal_val;
use crate::text::str_is;
use crate::transfer::UploadModel;
use crate::transfer::UploadState;

verus! {

/// One decoded request on the file endpoint.
pub struct FileRequest {
    pub cmd: String,
    pub path: String,
    /// `save`'s content, or `up`'s decimal chunk count.
    pub arg: String,
    pub token: String,
}

/// Whether the request passes the guard: always when password protection
/// is off, otherwise exactly when its token is valid now.
pub open spec fn spec_file_authorized(
    req: FileRequest,
    pass: bool,
    secret: Seq<char>,
    now: u64,
) -> bool {
    !pass || spec_token_valid(req.token@, secret, now)
}

/// What the file endpoint's task must do for one request.
pub enum FileAction {
    /// `open`: read this file fully and answer its text to the client.
    ReadFile(String),
    /// `dl`: canonicalize and walk this path, read its files, and hand the
    /// entries to the archive builder; then announce the chunk count and
    /// send every chunk in order.
    BuildArchive(String),
    /// `save`: write the text (second part) to the path (first part),
    /// creating or truncating it.
    WriteFile(String, String),
    /// `up` accepted: the accumulator now expects the declared chunks.
    UploadStarted,
    /// `up` with a count that is not a decimal number: a request error,
    /// nothing is recorded.
    RequestError,
    /// The request's token failed the guard: nothing is done and nothing
    /// is recorded.
    Denied,
    /// An unknown command: a no-op.
    Ignore,
}

/// The `up` argument is a usable chunk count.
pub open spec fn spec_valid_chunk_count(arg: Seq<char>) -> bool {
    arg.len() > 0 && spec_all_digits(arg) && spec_decimal_val(arg) <= usize::MAX
}

/// The dispatch of one file request: the accumulator afterwards and the
/// action to carry out. An unauthorized request is denied and changes
/// nothing. `open`, `dl` and `save` pass their paths and content through
/// verbatim; `up` re-arms the accumulator when its count parses and is
/// rejected otherwise; anything else is ignored.
pub open spec fn spec_file_step(up: UploadModel, req: FileRequest, authorized: bool) -> (
    UploadModel,
    FileAction,
) {
    if !authorized {
        (up, FileAction::Denied)
    } else if req.cmd@ == "open"@ {
        (up, FileAction::ReadFile(req.path))
    } else if req.cmd@ == "dl"@ {
        (up, FileAction::BuildArchive(req.path))
    } else if req.cmd@ == "up"@ {
        if spec_valid_chunk_count(req.arg@) {
            (
                UploadModel {
                    path: req.path@,
                    declared: spec_decimal_val(req.arg@),
                    received: 0,
                    buf: Seq::empty(),
                },
                FileAction::UploadStarted,
            )
        } else {
            (up, FileAction::RequestError)
        }
    } else if req.cmd@ == "save"@ {
        (up, FileAction::WriteFile(req.path, req.arg))
    } else {
        (up, FileAction::Ignore)
    }
}

/// Answers one file request; see [`spec_file_step`]. In particular `open`
/// hands the path on unchanged and `save` hands path and content on
/// unchanged, so what `open` answered and the client sent back to `save`
/// reaches the filesystem byte for byte.
pub fn file_request_step(
    upload: &mut UploadState,
    req: FileRequest,
    pass: bool,
    secret: &str,
    now: u64,
) -> (action: FileAction)
    ensures
        (final(upload)@, action) == spec_file_step(
            old(upload)@,
            req,
            spec_file_authorized(req, pass, secret@, now),
        ),
{
    let ghost greq = req;
    let authorized = !pass || validate_token(req.token.as_str(), secret, now);
    if !authorized {
        return FileAction::Denied;
    }
    let FileRequest { cmd, path, arg, token: _token } = req;
    if str_is(cmd.as_str(), "open") {
        FileAction::ReadFile(path)
    } else if str_is(cmd.as_str(), "dl") {
        FileAction::BuildArchive(path)
    } else if str_is(cmd.as_str(), "up") {
        match parse_usize(arg.as_str()) {
            Some(declared) => {
                upload.begin(path, declared);
                FileAction::UploadStarted
            },
            None => FileAction::RequestError,
        }
    } else if str_is(cmd.as_str(), "save") {
        FileAction::WriteFile(path, arg)
    } else {
        FileAction::Ignore
    }
}

} // verus!
