//! Provisioning with the pool filesystem, step by step: mount the pool if
//! there is one and bring it up to date, else set one up. Whatever fails, the
//! mount point is let go of before the failure is reported.

use crate::blockdev::{unused_candidates, BlockDevice};
use crate::command::{commands_view, text_option, Command, CommandView, Exit};
use crate::error::Error;
use crate::pool::{
    cleanup_command, cleanup_command_of, format_command, format_plan, mount_command,
    mount_command_of, newcomers, probe_command, probe_command_of, reconcile_commands,
    reconcile_plan, survey, survey_of, PoolSurveyView, MIN_DEVICES,
};
use crate::step::{failure, failure_of, Reply, ReplyView, Request, RequestView};
use vstd::prelude::*;
use vstd::string::*;

verus! {

/// What stays the same through a run.
pub struct PoolContext {
    /// UUID of the pool.
    pub uuid: String,
    /// Where the pool is mounted.
    pub mount_path: String,
    /// Whether the pool is encrypted.
    pub encrypted: bool,
}

/// The content of a `PoolContext`.
pub struct PoolContextView {
    pub uuid: Seq<char>,
    pub mount_path: Seq<char>,
    pub encrypted: bool,
}

impl View for PoolContext {
    type V = PoolContextView;

    open spec fn view(&self) -> PoolContextView {
        PoolContextView {
            uuid: self.uuid@,
            mount_path: self.mount_path@,
            encrypted: self.encrypted,
        }
    }
}

/// What the run is waiting for.
#[derive(Clone, Copy, Debug, PartialEq, Eq, Structural)]
pub enum PoolPhase {
    /// For the search for an existing pool.
    Probing,
    /// For the key of the existing pool.
    KeyExisting,
    /// For the mount of the existing pool.
    MountExisting,
    /// For the status directory of the mounted pool.
    Survey,
    /// For a command that brings the pool up to date.
    Reconcile,
    /// For the key of the pool to set up.
    KeyFresh,
    /// For the setting up of the pool.
    Format,
    /// For the mount of the pool that was set up.
    MountFresh,
    /// For the mount point to be let go of, after a failure.
    Cleanup,
    /// For nothing: the run is over.
    Finished,
}

/// A run of the pool strategy.
pub struct PoolMachine {
    pub phase: PoolPhase,
    /// The device inventory, until the disks have been chosen from it.
    pub blocks: Vec<BlockDevice>,
    /// The key, once it is known.
    pub key: Option<String>,
    /// Commands still to run to bring the pool up to date.
    pub queue: Vec<Command>,
    /// The failure to report when the mount point has been let go of.
    pub failure: Option<Error>,
}

/// The content of a `PoolMachine`.
pub struct PoolMachineView {
    pub phase: PoolPhase,
    pub blocks: Seq<BlockDevice>,
    pub key: Option<Seq<char>>,
    pub queue: Seq<CommandView>,
    pub failure: Option<Error>,
}

impl View for PoolMachine {
    type V = PoolMachineView;

    open spec fn view(&self) -> PoolMachineView {
        PoolMachineView {
            phase: self.phase,
            blocks: self.blocks@,
            key: text_option(self.key),
            queue: commands_view(self.queue@),
            failure: self.failure,
        }
    }
}

/// The plan that brings a pool up to date, or the failure to make one.
pub open spec fn reconcile_outcome(
    survey: PoolSurveyView,
    unused: Seq<BlockDevice>,
    mount: Seq<char>,
) -> Result<Seq<CommandView>, Error> {
    if survey.last_index + newcomers(unused, survey.members).len() <= usize::MAX {
        Ok(reconcile_commands(survey, unused, mount))
    } else {
        Err(Error::Config)
    }
}

/// The command that sets up a pool, or the failure to make one.
pub open spec fn format_outcome(
    uuid: Seq<char>,
    key: Option<Seq<char>>,
    unused: Seq<BlockDevice>,
) -> Result<CommandView, Error> {
    if unused.len() >= MIN_DEVICES {
        Ok(format_command(uuid, key, unused))
    } else {
        Err(Error::Config)
    }
}

/// After a failure: let go of the mount point, and keep the failure for the
/// report.
pub open spec fn pool_fail(ctx: PoolContextView, m: PoolMachineView, error: Error) -> (
    PoolMachineView,
    RequestView,
) {
    (
        PoolMachineView { phase: PoolPhase::Cleanup, failure: Some(error), ..m },
        RequestView::Run { command: cleanup_command_of(ctx.mount_path) },
    )
}

/// The end of the run.
pub open spec fn pool_finish(m: PoolMachineView, result: Result<(), Error>) -> (
    PoolMachineView,
    RequestView,
) {
    (PoolMachineView { phase: PoolPhase::Finished, ..m }, RequestView::Finish { result })
}

/// Runs the next command of the queue; with an empty queue the run ends well.
pub open spec fn pool_run_queue(m: PoolMachineView) -> (PoolMachineView, RequestView) {
    if m.queue.len() == 0 {
        pool_finish(m, Ok(()))
    } else {
        (
            PoolMachineView { phase: PoolPhase::Reconcile, queue: m.queue.drop_first(), ..m },
            RequestView::Run { command: m.queue[0] },
        )
    }
}

/// Sets up a pool across the unused disks of the inventory.
pub open spec fn pool_begin_format(
    ctx: PoolContextView,
    m: PoolMachineView,
    key: Option<Seq<char>>,
) -> (PoolMachineView, RequestView) {
    let after = PoolMachineView { blocks: Seq::empty(), key, ..m };
    match format_outcome(ctx.uuid, key, unused_candidates(m.blocks)) {
        Ok(command) => (
            PoolMachineView { phase: PoolPhase::Format, ..after },
            RequestView::Run { command },
        ),
        Err(error) => pool_fail(ctx, after, error),
    }
}

/// Brings the mounted pool up to date with what its status directory shows.
pub open spec fn pool_begin_reconcile(
    ctx: PoolContextView,
    m: PoolMachineView,
    survey: PoolSurveyView,
) -> (PoolMachineView, RequestView) {
    let after = PoolMachineView { blocks: Seq::empty(), ..m };
    match reconcile_outcome(survey, unused_candidates(m.blocks), ctx.mount_path) {
        Ok(queue) => pool_run_queue(PoolMachineView { queue, ..after }),
        Err(error) => pool_fail(ctx, after, error),
    }
}

/// How a run begins: with the search for an existing pool.
pub open spec fn pool_first(ctx: PoolContextView, blocks: Seq<BlockDevice>) -> (
    PoolMachineView,
    RequestView,
) {
    (
        PoolMachineView {
            phase: PoolPhase::Probing,
            blocks,
            key: None,
            queue: Seq::empty(),
            failure: None,
        },
        RequestView::Run { command: probe_command_of(ctx.uuid) },
    )
}

/// The strategy's rule: the state and the request that follow `reply`.
///
/// A pool that is found is mounted, with the key if it is encrypted, and
/// brought up to date. Where none is found, one is set up across the unused
/// disks and mounted. A reply other than the one waited for is a failure,
/// and after a failure the mount point is let go of before the run ends.
pub open spec fn pool_next(ctx: PoolContextView, m: PoolMachineView, reply: ReplyView) -> (
    PoolMachineView,
    RequestView,
) {
    match m.phase {
        PoolPhase::Probing => match reply {
            ReplyView::Ran { success, .. } => if ctx.encrypted {
                (
                    PoolMachineView {
                        phase: if success {
                            PoolPhase::KeyExisting
                        } else {
                            PoolPhase::KeyFresh
                        },
                        ..m
                    },
                    RequestView::AcquireKey { confirm: true },
                )
            } else if success {
                (
                    PoolMachineView { phase: PoolPhase::MountExisting, ..m },
                    RequestView::Run {
                        command: mount_command_of(ctx.uuid, ctx.mount_path, None),
                    },
                )
            } else {
                pool_begin_format(ctx, m, None)
            },
            _ => pool_fail(ctx, m, failure_of(reply)),
        },
        PoolPhase::KeyExisting => match reply {
            ReplyView::Key { key } => (
                PoolMachineView { phase: PoolPhase::MountExisting, key: Some(key), ..m },
                RequestView::Run {
                    command: mount_command_of(ctx.uuid, ctx.mount_path, Some(key)),
                },
            ),
            _ => pool_fail(ctx, m, failure_of(reply)),
        },
        PoolPhase::MountExisting => match reply {
            ReplyView::Ran { success: true, .. } => (
                PoolMachineView { phase: PoolPhase::Survey, ..m },
                RequestView::ReadSlots { uuid: ctx.uuid },
            ),
            _ => pool_fail(ctx, m, failure_of(reply)),
        },
        PoolPhase::Survey => match reply {
            ReplyView::Slots { entries } => pool_begin_reconcile(ctx, m, survey_of(entries)),
            _ => pool_fail(ctx, m, failure_of(reply)),
        },
        PoolPhase::Reconcile => match reply {
            ReplyView::Ran { success: true, .. } => pool_run_queue(m),
            _ => pool_fail(ctx, m, failure_of(reply)),
        },
        PoolPhase::KeyFresh => match reply {
            ReplyView::Key { key } => pool_begin_format(ctx, m, Some(key)),
            _ => pool_fail(ctx, m, failure_of(reply)),
        },
        PoolPhase::Format => match reply {
            ReplyView::Ran { success: true, .. } => (
                PoolMachineView { phase: PoolPhase::MountFresh, ..m },
                RequestView::Run {
                    command: mount_command_of(ctx.uuid, ctx.mount_path, m.key),
                },
            ),
            _ => pool_fail(ctx, m, failure_of(reply)),
        },
        PoolPhase::MountFresh => match reply {
            ReplyView::Ran { success: true, .. } => pool_finish(m, Ok(())),
            _ => pool_fail(ctx, m, failure_of(reply)),
        },
        PoolPhase::Cleanup => pool_finish(
            m,
            Err(
                match m.failure {
                    Some(error) => error,
                    None => Error::Schema,
                },
            ),
        ),
        PoolPhase::Finished => pool_finish(m, Err(Error::Schema)),
    }
}

/// A copy of a key that may be absent.
fn copy_key(key: &Option<String>) -> (r: Option<String>)
    ensures
        text_option(r) == text_option(*key),
{
    match key {
        Some(k) => Some(k.clone()),
        None => None,
    }
}

fn fail(ctx: &PoolContext, machine: PoolMachine, error: Error) -> (r: (PoolMachine, Request))
    ensures
        (r.0@, r.1@) == pool_fail(ctx@, machine@, error),
{
    let PoolMachine { phase: _, blocks, key, queue, failure: _ } = machine;
    (
        PoolMachine { phase: PoolPhase::Cleanup, blocks, key, queue, failure: Some(error) },
        Request::Run { command: cleanup_command(ctx.mount_path.as_str()) },
    )
}

fn finish(machine: PoolMachine, result: Result<(), Error>) -> (r: (PoolMachine, Request))
    ensures
        (r.0@, r.1@) == pool_finish(machine@, result),
{
    let PoolMachine { phase: _, blocks, key, queue, failure } = machine;
    (
        PoolMachine { phase: PoolPhase::Finished, blocks, key, queue, failure },
        Request::Finish { result },
    )
}

fn run_queue(machine: PoolMachine) -> (r: (PoolMachine, Request))
    ensures
        (r.0@, r.1@) == pool_run_queue(machine@),
{
    if machine.queue.len() == 0 {
        assert(commands_view(machine.queue@).len() == 0);
        finish(machine, Ok(()))
    } else {
        let PoolMachine { phase: _, blocks, key, queue, failure } = machine;
        let mut queue = queue;
        let ghost before = queue@;
        let command = queue.remove(0);
        proof {
            assert(commands_view(queue@) =~= commands_view(before).drop_first()) by {
                assert forall|i: int| 0 <= i < queue@.len() implies commands_view(queue@)[i]
                    == commands_view(before).drop_first()[i] by {}
            }
        }
        (
            PoolMachine { phase: PoolPhase::Reconcile, blocks, key, queue, failure },
            Request::Run { command },
        )
    }
}

fn begin_format(ctx: &PoolContext, machine: PoolMachine, key: Option<String>) -> (r: (
    PoolMachine,
    Request,
))
    ensures
        (r.0@, r.1@) == pool_begin_format(ctx@, machine@, text_option(key)),
{
    let PoolMachine { phase, blocks, key: _, queue, failure } = machine;
    let copy = copy_key(&key);
    let none: Vec<BlockDevice> = Vec::new();
    match format_plan(ctx.uuid.as_str(), copy, blocks) {
        Ok(command) => (
            PoolMachine { phase: PoolPhase::Format, blocks: none, key, queue, failure },
            Request::Run { command },
        ),
        Err(error) => fail(ctx, PoolMachine { phase, blocks: none, key, queue, failure }, error),
    }
}

/// Begins a run for the device inventory `blocks`.
pub fn pool_start(ctx: &PoolContext, blocks: Vec<BlockDevice>) -> (r: (PoolMachine, Request))
    ensures
        (r.0@, r.1@) == pool_first(ctx@, blocks@),
{
    let queue: Vec<Command> = Vec::new();
    assert(commands_view(queue@) =~= Seq::empty());
    (
        PoolMachine { phase: PoolPhase::Probing, blocks, key: None, queue, failure: None },
        Request::Run { command: probe_command(ctx.uuid.as_str()) },
    )
}

/// Takes the reply to the last request and says how the run goes on.
pub fn pool_step(ctx: &PoolContext, machine: PoolMachine, reply: Reply) -> (r: (
    PoolMachine,
    Request,
))
    ensures
        (r.0@, r.1@) == pool_next(ctx@, machine@, reply@),
{
    let error = failure(&reply);
    match machine.phase {
        PoolPhase::Probing => match reply {
            Reply::Ran { exit } => {
                let success = match exit {
                    Exit::Success { .. } => true,
                    _ => false,
                };
                if ctx.encrypted {
                    let PoolMachine { phase: _, blocks, key, queue, failure } = machine;
                    let phase = if success {
                        PoolPhase::KeyExisting
                    } else {
                        PoolPhase::KeyFresh
                    };
                    (
                        PoolMachine { phase, blocks, key, queue, failure },
                        Request::AcquireKey { confirm: true },
                    )
                } else if success {
                    let PoolMachine { phase: _, blocks, key, queue, failure } = machine;
                    (
                        PoolMachine { phase: PoolPhase::MountExisting, blocks, key, queue, failure },
                        Request::Run {
                            command: mount_command(
                                ctx.uuid.as_str(),
                                ctx.mount_path.as_str(),
                                None,
                            ),
                        },
                    )
                } else {
                    begin_format(ctx, machine, None)
                }
            },
            _ => fail(ctx, machine, error),
        },
        PoolPhase::KeyExisting => match reply {
            Reply::Key { key } => {
                let PoolMachine { phase: _, blocks, key: _, queue, failure } = machine;
                let copy = key.clone();
                (
                    PoolMachine {
                        phase: PoolPhase::MountExisting,
                        blocks,
                        key: Some(key),
                        queue,
                        failure,
                    },
                    Request::Run {
                        command: mount_command(
                            ctx.uuid.as_str(),
                            ctx.mount_path.as_str(),
                            Some(copy),
                        ),
                    },
                )
            },
            _ => fail(ctx, machine, error),
        },
        PoolPhase::MountExisting => match reply {
            Reply::Ran { exit: Exit::Success { .. } } => {
                let PoolMachine { phase: _, blocks, key, queue, failure } = machine;
                (
                    PoolMachine { phase: PoolPhase::Survey, blocks, key, queue, failure },
                    Request::ReadSlots { uuid: ctx.uuid.clone() },
                )
            },
            _ => fail(ctx, machine, error),
        },
        PoolPhase::Survey => match reply {
            Reply::Slots { entries } => {
                let PoolMachine { phase, blocks, key, queue: kept, failure } = machine;
                let found = survey(entries);
                let none: Vec<BlockDevice> = Vec::new();
                assert(none@ =~= Seq::empty());
                match reconcile_plan(&found, blocks, ctx.mount_path.as_str()) {
                    Ok(queue) => run_queue(
                        PoolMachine { phase, blocks: none, key, queue, failure },
                    ),
                    Err(e) => fail(
                        ctx,
                        PoolMachine { phase, blocks: none, key, queue: kept, failure },
                        e,
                    ),
                }
            },
            _ => fail(ctx, machine, error),
        },
        PoolPhase::Reconcile => match reply {
            Reply::Ran { exit: Exit::Success { .. } } => run_queue(machine),
            _ => fail(ctx, machine, error),
        },
        PoolPhase::KeyFresh => match reply {
            Reply::Key { key } => begin_format(ctx, machine, Some(key)),
            _ => fail(ctx, machine, error),
        },
        PoolPhase::Format => match reply {
            Reply::Ran { exit: Exit::Success { .. } } => {
                let PoolMachine { phase: _, blocks, key, queue, failure } = machine;
                let copy = copy_key(&key);
                (
                    PoolMachine { phase: PoolPhase::MountFresh, blocks, key, queue, failure },
                    Request::Run {
                        command: mount_command(
                            ctx.uuid.as_str(),
                            ctx.mount_path.as_str(),
                            copy,
                        ),
                    },
                )
            },
            _ => fail(ctx, machine, error),
        },
        PoolPhase::MountFresh => match reply {
            Reply::Ran { exit: Exit::Success { .. } } => finish(machine, Ok(())),
            _ => fail(ctx, machine, error),
        },
        PoolPhase::Cleanup => {
            let error = match machine.failure {
                Some(error) => error,
                None => Error::Schema,
            };
            finish(machine, Err(error))
        },
        PoolPhase::Finished => finish(machine, Err(Error::Schema)),
    }
}

/// A run reports a failure only when it has let go of the mount point: the
/// step before the report was the wait for that, and a failure anywhere else
/// leads there first.
pub proof fn lemma_pool_failure_cleans_up(
    ctx: PoolContextView,
    m: PoolMachineView,
    reply: ReplyView,
)
    requires
        m.phase != PoolPhase::Finished,
    ensures
        pool_next(ctx, m, reply).1 matches RequestView::Finish { result: Err(_) } ==> m.phase
            == PoolPhase::Cleanup,
        pool_next(ctx, m, reply).0.phase == PoolPhase::Cleanup ==> pool_next(ctx, m, reply).1 == (
        RequestView::Run { command: cleanup_command_of(ctx.mount_path) }),
{
}

} // verus!
