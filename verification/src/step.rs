//! What a provisioning strategy asks of its caller, and what the caller
//! answers. A strategy never acts itself: it hands out one request at a time
//! and decides on the next when it has the reply.

use crate::command::{Command, CommandView, Exit};
use crate::error::Error;
use crate::pool::{slots_view, SlotEntry, SlotEntryView};
use vstd::prelude::*;

verus! {

/// Something for the caller to do.
#[derive(Debug, PartialEq, Eq)]
pub enum Request {
    /// Run `command` to its end; reply with `Ran`.
    Run { command: Command },
    /// Find out whether `path` exists; reply with `Exists`.
    Probe { path: String },
    /// Wait for `seconds` seconds; reply with `Resumed`.
    Pause { seconds: u64 },
    /// Obtain the key as the configuration says, having the operator confirm
    /// a password if `confirm` is set; reply with `Key`.
    AcquireKey { confirm: bool },
    /// Read the status directory of the pool `uuid`; reply with `Slots`.
    ReadSlots { uuid: String },
    /// Mount the filesystem on `device` at the mount point, unless it is
    /// mounted there; reply with `Mounted`.
    EnsureMounted { device: String },
    /// Decrypt the file at `path` with `key` and store the result where only
    /// its owner can read it; reply with `Stored`.
    DecryptExtra { key: String, path: String },
    /// Nothing more: the strategy has ended with `result`.
    Finish { result: Result<(), Error> },
}

/// The content of a `Request`.
pub enum RequestView {
    Run { command: CommandView },
    Probe { path: Seq<char> },
    Pause { seconds: u64 },
    AcquireKey { confirm: bool },
    ReadSlots { uuid: Seq<char> },
    EnsureMounted { device: Seq<char> },
    DecryptExtra { key: Seq<char>, path: Seq<char> },
    Finish { result: Result<(), Error> },
}

impl View for Request {
    type V = RequestView;

    open spec fn view(&self) -> RequestView {
        match self {
            Request::Run { command } => RequestView::Run { command: command@ },
            Request::Probe { path } => RequestView::Probe { path: path@ },
            Request::Pause { seconds } => RequestView::Pause { seconds: *seconds },
            Request::AcquireKey { confirm } => RequestView::AcquireKey { confirm: *confirm },
            Request::ReadSlots { uuid } => RequestView::ReadSlots { uuid: uuid@ },
            Request::EnsureMounted { device } => RequestView::EnsureMounted { device: device@ },
            Request::DecryptExtra { key, path } => RequestView::DecryptExtra {
                key: key@,
                path: path@,
            },
            Request::Finish { result } => RequestView::Finish { result: *result },
        }
    }
}

/// What came of a request.
pub enum Reply {
    /// The command was run and ended as `exit` says.
    Ran { exit: Exit },
    /// Whether the path exists.
    Exists { found: bool },
    /// The wait is over.
    Resumed,
    /// The key.
    Key { key: String },
    /// The entries of the status directory.
    Slots { entries: Vec<SlotEntry> },
    /// The filesystem is mounted at the mount point.
    Mounted,
    /// The decrypted file is stored.
    Stored,
    /// The request could not be carried out.
    Failed { error: Error },
}

/// The content of a `Reply`. Of a command it holds whether it ended well,
/// and what it printed if it did.
pub enum ReplyView {
    Ran { success: bool, stdout: Seq<u8> },
    Exists { found: bool },
    Resumed,
    Key { key: Seq<char> },
    Slots { entries: Seq<SlotEntryView> },
    Mounted,
    Stored,
    Failed { error: Error },
}

impl View for Reply {
    type V = ReplyView;

    open spec fn view(&self) -> ReplyView {
        match self {
            Reply::Ran { exit } => match exit {
                Exit::Success { stdout } => ReplyView::Ran { success: true, stdout: stdout@ },
                _ => ReplyView::Ran { success: false, stdout: Seq::empty() },
            },
            Reply::Exists { found } => ReplyView::Exists { found: *found },
            Reply::Resumed => ReplyView::Resumed,
            Reply::Key { key } => ReplyView::Key { key: key@ },
            Reply::Slots { entries } => ReplyView::Slots { entries: slots_view(entries@) },
            Reply::Mounted => ReplyView::Mounted,
            Reply::Stored => ReplyView::Stored,
            Reply::Failed { error } => ReplyView::Failed { error: *error },
        }
    }
}

/// The error that a reply stands for when it is not the reply that was
/// waited for: its own if it reports a failure, `ToolInvocation` for a
/// command that ended badly, `Schema` for anything else.
pub open spec fn failure_of(reply: ReplyView) -> Error {
    match reply {
        ReplyView::Failed { error } => error,
        ReplyView::Ran { success, .. } => if success {
            Error::Schema
        } else {
            Error::ToolInvocation
        },
        _ => Error::Schema,
    }
}

/// The error that `reply` stands for when it is not the reply that was
/// waited for.
pub fn failure(reply: &Reply) -> (r: Error)
    ensures
        r == failure_of(reply@),
{
    match reply {
        Reply::Failed { error } => *error,
        Reply::Ran { exit } => match exit {
            Exit::Success { .. } => Error::Schema,
            _ => Error::ToolInvocation,
        },
        _ => Error::Schema,
    }
}

} // verus!
