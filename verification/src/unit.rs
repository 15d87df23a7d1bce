//! Mounting by way of the service manager: the mount unit that belongs to the
//! mount point is asked for its state, and a mount is requested only if the
//! unit is not active.

use crate::command::{Command, CommandView, Exit};
use crate::error::Error;
use crate::key::from_utf8;
use crate::step::{failure, failure_of, Reply, ReplyView, Request, RequestView};
use crate::text::{split_once, split_once_of, text_eq, trim, trimmed};
use vstd::prelude::*;
use vstd::string::*;
use vstd::utf8::{decode_utf8, valid_utf8};

verus! {

/// Where to mount, and what.
pub struct UnitContext {
    /// The mount point.
    pub mount_path: String,
    /// The device that holds the filesystem.
    pub device: String,
}

/// The content of a `UnitContext`.
pub struct UnitContextView {
    pub mount_path: Seq<char>,
    pub device: Seq<char>,
}

impl View for UnitContext {
    type V = UnitContextView;

    open spec fn view(&self) -> UnitContextView {
        UnitContextView { mount_path: self.mount_path@, device: self.device@ }
    }
}

/// Asks for the name of the mount unit that belongs to `mount`.
pub open spec fn escape_command_of(mount: Seq<char>) -> CommandView {
    CommandView {
        program: "systemd-escape"@,
        args: seq!["--path"@, "--suffix=mount"@, mount],
        stdin: None,
    }
}

/// Asks for the activation state of `unit`.
pub open spec fn state_command_of(unit: Seq<char>) -> CommandView {
    CommandView {
        program: "systemctl"@,
        args: seq!["show"@, "--property=ActiveState"@, unit],
        stdin: None,
    }
}

/// Requests the mount of `device` at `mount`, without recording access
/// times; the unit is cleaned away when it is no longer needed.
pub open spec fn mount_unit_command_of(device: Seq<char>, mount: Seq<char>) -> CommandView {
    CommandView {
        program: "systemd-mount"@,
        args: seq!["--options=noatime"@, "--collect"@, device, mount],
        stdin: None,
    }
}

/// The unit name in what the naming tool printed: the text without the white
/// space around it.
pub open spec fn unit_name_of(stdout: Seq<u8>) -> Result<Seq<char>, Error> {
    if valid_utf8(stdout) {
        Ok(trimmed(decode_utf8(stdout)))
    } else {
        Err(Error::Schema)
    }
}

/// The activation state in what the service manager printed. The text has to
/// be `ActiveState=` and the state, with white space allowed around it.
pub open spec fn active_state_of(stdout: Seq<u8>) -> Result<Seq<char>, Error> {
    if !valid_utf8(stdout) {
        Err(Error::Schema)
    } else {
        match split_once_of(trimmed(decode_utf8(stdout)), '=') {
            Some((key, value)) => if key == "ActiveState"@ {
                Ok(value)
            } else {
                Err(Error::Schema)
            },
            None => Err(Error::Schema),
        }
    }
}

/// The command that asks for the name of the mount unit.
pub fn escape_command(mount_path: &str) -> (r: Command)
    ensures
        r@ == escape_command_of(mount_path@),
{
    let mut c = Command::new("systemd-escape");
    c.arg("--path");
    c.arg("--suffix=mount");
    c.arg(mount_path);
    assert(c@.args =~= escape_command_of(mount_path@).args);
    c
}

/// The command that asks for the activation state of `unit`.
pub fn state_command(unit: &str) -> (r: Command)
    ensures
        r@ == state_command_of(unit@),
{
    let mut c = Command::new("systemctl");
    c.arg("show");
    c.arg("--property=ActiveState");
    c.arg(unit);
    assert(c@.args =~= state_command_of(unit@).args);
    c
}

/// The command that requests the mount.
pub fn mount_unit_command(device: &str, mount_path: &str) -> (r: Command)
    ensures
        r@ == mount_unit_command_of(device@, mount_path@),
{
    let mut c = Command::new("systemd-mount");
    c.arg("--options=noatime");
    c.arg("--collect");
    c.arg(device);
    c.arg(mount_path);
    assert(c@.args =~= mount_unit_command_of(device@, mount_path@).args);
    c
}

/// Reads the unit name off what the naming tool printed.
pub fn unit_name(stdout: Vec<u8>) -> (r: Result<String, Error>)
    ensures
        match unit_name_of(stdout@) {
            Ok(name) => r is Ok && r->Ok_0@ == name,
            Err(error) => r == Err::<String, Error>(error),
        },
{
    match from_utf8(stdout) {
        Ok(text) => Ok(trim(text.as_str())),
        Err(error) => Err(error),
    }
}

/// Reads the activation state off what the service manager printed.
pub fn active_state(stdout: Vec<u8>) -> (r: Result<String, Error>)
    ensures
        match active_state_of(stdout@) {
            Ok(state) => r is Ok && r->Ok_0@ == state,
            Err(error) => r == Err::<String, Error>(error),
        },
{
    match from_utf8(stdout) {
        Err(error) => Err(error),
        Ok(text) => {
            let line = trim(text.as_str());
            match split_once(line.as_str(), '=') {
                None => Err(Error::Schema),
                Some((key, value)) => {
                    if text_eq(key.as_str(), "ActiveState") {
                        Ok(value)
                    } else {
                        Err(Error::Schema)
                    }
                },
            }
        },
    }
}

/// What mounting is waiting for.
#[derive(Clone, Copy, Debug, PartialEq, Eq, Structural)]
pub enum UnitPhase {
    /// For the name of the mount unit.
    Naming,
    /// For the activation state of the unit.
    Querying,
    /// For the mount.
    Mounting,
    /// For nothing: mounting is over.
    Finished,
}

/// The end of mounting.
pub open spec fn unit_finish(result: Result<(), Error>) -> (UnitPhase, RequestView) {
    (UnitPhase::Finished, RequestView::Finish { result })
}

/// How mounting begins: with the question for the unit's name.
pub open spec fn unit_first(ctx: UnitContextView) -> (UnitPhase, RequestView) {
    (UnitPhase::Naming, RequestView::Run { command: escape_command_of(ctx.mount_path) })
}

/// The rule of mounting: the state and the request that follow `reply`. A
/// unit that is active is left alone; for any other state the mount is
/// requested.
pub open spec fn unit_next(ctx: UnitContextView, phase: UnitPhase, reply: ReplyView) -> (
    UnitPhase,
    RequestView,
) {
    match phase {
        UnitPhase::Naming => match reply {
            ReplyView::Ran { success: true, stdout } => match unit_name_of(stdout) {
                Ok(unit) => (
                    UnitPhase::Querying,
                    RequestView::Run { command: state_command_of(unit) },
                ),
                Err(error) => unit_finish(Err(error)),
            },
            _ => unit_finish(Err(failure_of(reply))),
        },
        UnitPhase::Querying => match reply {
            ReplyView::Ran { success: true, stdout } => match active_state_of(stdout) {
                Ok(state) => if state == "active"@ {
                    unit_finish(Ok(()))
                } else {
                    (
                        UnitPhase::Mounting,
                        RequestView::Run {
                            command: mount_unit_command_of(ctx.device, ctx.mount_path),
                        },
                    )
                },
                Err(error) => unit_finish(Err(error)),
            },
            _ => unit_finish(Err(failure_of(reply))),
        },
        UnitPhase::Mounting => match reply {
            ReplyView::Ran { success: true, .. } => unit_finish(Ok(())),
            _ => unit_finish(Err(failure_of(reply))),
        },
        UnitPhase::Finished => unit_finish(Err(Error::Schema)),
    }
}

/// Begins mounting.
pub fn unit_mount_start(ctx: &UnitContext) -> (r: (UnitPhase, Request))
    ensures
        (r.0, r.1@) == unit_first(ctx@),
{
    (UnitPhase::Naming, Request::Run { command: escape_command(ctx.mount_path.as_str()) })
}

/// Takes the reply to the last request and says how mounting goes on.
pub fn unit_mount_step(ctx: &UnitContext, phase: UnitPhase, reply: Reply) -> (r: (
    UnitPhase,
    Request,
))
    ensures
        (r.0, r.1@) == unit_next(ctx@, phase, reply@),
{
    let error = failure(&reply);
    match phase {
        UnitPhase::Naming => match reply {
            Reply::Ran { exit: Exit::Success { stdout } } => match unit_name(stdout) {
                Ok(unit) => (
                    UnitPhase::Querying,
                    Request::Run { command: state_command(unit.as_str()) },
                ),
                Err(e) => (UnitPhase::Finished, Request::Finish { result: Err(e) }),
            },
            _ => (UnitPhase::Finished, Request::Finish { result: Err(error) }),
        },
        UnitPhase::Querying => match reply {
            Reply::Ran { exit: Exit::Success { stdout } } => match active_state(stdout) {
                Ok(state) => if text_eq(state.as_str(), "active") {
                    (UnitPhase::Finished, Request::Finish { result: Ok(()) })
                } else {
                    (
                        UnitPhase::Mounting,
                        Request::Run {
                            command: mount_unit_command(
                                ctx.device.as_str(),
                                ctx.mount_path.as_str(),
                            ),
                        },
                    )
                },
                Err(e) => (UnitPhase::Finished, Request::Finish { result: Err(e) }),
            },
            _ => (UnitPhase::Finished, Request::Finish { result: Err(error) }),
        },
        UnitPhase::Mounting => match reply {
            Reply::Ran { exit: Exit::Success { .. } } => (
                UnitPhase::Finished,
                Request::Finish { result: Ok(()) },
            ),
            _ => (UnitPhase::Finished, Request::Finish { result: Err(error) }),
        },
        UnitPhase::Finished => (UnitPhase::Finished, Request::Finish { result: Err(Error::Schema) }),
    }
}

/// An active unit is never mounted again: the mount is requested only in
/// answer to a state other than `active`.
pub proof fn lemma_active_unit_left_alone(ctx: UnitContextView, reply: ReplyView)
    ensures
        unit_next(ctx, UnitPhase::Querying, reply).0 == UnitPhase::Mounting ==> reply is Ran
            && active_state_of(reply->stdout) is Ok && active_state_of(reply->stdout)->Ok_0
            != "active"@,
{
}

} // verus!
