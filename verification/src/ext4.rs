//! Provisioning with ext4 on a single disk, step by step: mount the volume
//! if there is one, else format the largest unused disk and mount that. With
//! encryption the filesystem lives inside an encrypted container.

use crate::blockdev::{find_unused, unused_candidates, BlockDevice};
use crate::command::{text_option, Command, CommandView, Exit};
use crate::config::{EncryptionKind, INNER_UUID};
use crate::error::Error;
use crate::step::{failure, failure_of, Reply, ReplyView, Request, RequestView};
use crate::text::text_eq;
use vstd::prelude::*;
use vstd::string::*;

verus! {

/// Name under which the unlocked container is mapped.
pub const MAPPER_NAME: &'static str = "persistent";

/// Device path of the unlocked container.
pub const MAPPER_PATH: &'static str = "/dev/mapper/persistent";

/// How often a device is looked for before it is given up.
pub const RETRIES: usize = 30;

/// Seconds between two looks.
pub const RETRY_SECONDS: u64 = 1;

/// Where the further file is stored once decrypted, for its owner's eyes
/// only.
pub const DECRYPTED_PATH: &'static str = "/run/volumesetup_decrypted";

/// What stays the same through a run.
pub struct Ext4Context {
    /// UUID of the raw volume.
    pub outer_uuid: String,
    /// Whether and how the volume is encrypted.
    pub encryption: EncryptionKind,
    /// A further file to decrypt once the volume is mounted, if any.
    pub extra: Option<String>,
}

/// The content of an `Ext4Context`.
pub struct Ext4ContextView {
    pub outer_uuid: Seq<char>,
    pub encryption: EncryptionKind,
    pub extra: Option<Seq<char>>,
}

impl View for Ext4Context {
    type V = Ext4ContextView;

    open spec fn view(&self) -> Ext4ContextView {
        Ext4ContextView {
            outer_uuid: self.outer_uuid@,
            encryption: self.encryption,
            extra: text_option(self.extra),
        }
    }
}

/// What the run is waiting for.
#[derive(Clone, Copy, Debug, PartialEq, Eq, Structural)]
pub enum Ext4Phase {
    /// For the key of the existing volume.
    KeyExisting,
    /// For the key of the volume to create.
    KeyFresh,
    /// For the disk to be made an encrypted container.
    LuksFormat,
    /// For the container to be given its UUID.
    LuksUuid,
    /// For a look for the container's device.
    OuterProbe,
    /// For the pause after a look that found no container.
    OuterPause,
    /// For a look for the mapped device; `fresh` tells a new container from
    /// one that was there.
    MapperProbe { fresh: bool },
    /// For the container to be unlocked.
    LuksOpen { fresh: bool },
    /// For a look for the filesystem inside the container.
    InnerProbe,
    /// For the pause after a look that found no filesystem inside.
    InnerPause,
    /// For the filesystem to be made; `inner` says that it goes inside the
    /// container.
    Mkfs { inner: bool },
    /// For a look for the new filesystem's device.
    FsProbe { inner: bool },
    /// For the pause after a look that found no new filesystem.
    FsPause { inner: bool },
    /// For the mount.
    Mounting,
    /// For the further file to be decrypted.
    Extra,
    /// For nothing: the run is over.
    Finished,
}

/// A run of the ext4 strategy.
pub struct Ext4Machine {
    pub phase: Ext4Phase,
    /// The key, once it is known.
    pub key: Option<String>,
    /// The disk that holds the volume or is chosen to hold it.
    pub disk: String,
    /// Looks taken so far for the device that is waited for.
    pub tries: usize,
}

/// The content of an `Ext4Machine`.
pub struct Ext4MachineView {
    pub phase: Ext4Phase,
    pub key: Option<Seq<char>>,
    pub disk: Seq<char>,
    pub tries: usize,
}

impl View for Ext4Machine {
    type V = Ext4MachineView;

    open spec fn view(&self) -> Ext4MachineView {
        Ext4MachineView {
            phase: self.phase,
            key: text_option(self.key),
            disk: self.disk@,
            tries: self.tries,
        }
    }
}

/// The device path under which a filesystem or container is found by its
/// UUID.
pub open spec fn by_uuid_of(uuid: Seq<char>) -> Seq<char> {
    "/dev/disk/by-uuid/"@ + uuid
}

/// Makes an ext4 filesystem with the UUID `uuid` on `device`, whatever the
/// device holds.
pub open spec fn mkfs_command_of(device: Seq<char>, uuid: Seq<char>) -> CommandView {
    CommandView { program: "mkfs.ext4"@, args: seq!["-F"@, device, "-U"@, uuid], stdin: None }
}

/// Makes `device` an encrypted container that `key` unlocks.
pub open spec fn luks_format_command_of(device: Seq<char>, key: Option<Seq<char>>) -> CommandView {
    CommandView {
        program: "cryptsetup"@,
        args: seq!["luksFormat"@, "--type=luks2"@, "--key-file=-"@, device],
        stdin: key,
    }
}

/// Gives the container on `device` the UUID `uuid`.
pub open spec fn luks_uuid_command_of(device: Seq<char>, uuid: Seq<char>) -> CommandView {
    CommandView {
        program: "cryptsetup"@,
        args: seq!["luksUUID"@, "--uuid"@, uuid, device],
        stdin: None,
    }
}

/// Unlocks the container with the UUID `uuid` and maps it as `MAPPER_NAME`.
pub open spec fn luks_open_command_of(uuid: Seq<char>, key: Option<Seq<char>>) -> CommandView {
    CommandView {
        program: "cryptsetup"@,
        args: seq!["open"@, "--key-file=-"@, by_uuid_of(uuid), MAPPER_NAME@],
        stdin: key,
    }
}

/// The path of the first device of the inventory that carries the UUID
/// `uuid`; `None` where there is no such device.
pub open spec fn existing_volume(blocks: Seq<BlockDevice>, uuid: Seq<char>) -> Option<Seq<char>>
    decreases blocks.len(),
{
    if blocks.len() == 0 {
        None
    } else if text_option(blocks[0].uuid) == Some(uuid) {
        Some(blocks[0].path@)
    } else {
        existing_volume(blocks.drop_first(), uuid)
    }
}

/// The end of the run.
pub open spec fn ext4_finish(m: Ext4MachineView, result: Result<(), Error>) -> (
    Ext4MachineView,
    RequestView,
) {
    (Ext4MachineView { phase: Ext4Phase::Finished, ..m }, RequestView::Finish { result })
}

/// Takes the first look for `path`, with `phase` to wait in.
pub open spec fn ext4_look(m: Ext4MachineView, phase: Ext4Phase, path: Seq<char>) -> (
    Ext4MachineView,
    RequestView,
) {
    (Ext4MachineView { phase, tries: 0, ..m }, RequestView::Probe { path })
}

/// After a look that found nothing: count it and pause, with `phase` to
/// wait in.
pub open spec fn ext4_pause(m: Ext4MachineView, phase: Ext4Phase) -> (
    Ext4MachineView,
    RequestView,
) {
    (
        Ext4MachineView {
            phase,
            tries: if m.tries < RETRIES {
                (m.tries + 1) as usize
            } else {
                m.tries
            },
            ..m
        },
        RequestView::Pause { seconds: RETRY_SECONDS },
    )
}

/// Has the filesystem on `device` mounted.
pub open spec fn ext4_mount(m: Ext4MachineView, device: Seq<char>) -> (
    Ext4MachineView,
    RequestView,
) {
    (Ext4MachineView { phase: Ext4Phase::Mounting, ..m }, RequestView::EnsureMounted { device })
}

/// Makes the filesystem: inside the container if `inner` is set, else on the
/// chosen disk.
pub open spec fn ext4_mkfs(ctx: Ext4ContextView, m: Ext4MachineView, inner: bool) -> (
    Ext4MachineView,
    RequestView,
) {
    (
        Ext4MachineView { phase: Ext4Phase::Mkfs { inner }, ..m },
        RequestView::Run {
            command: if inner {
                mkfs_command_of(MAPPER_PATH@, INNER_UUID@)
            } else {
                mkfs_command_of(m.disk, ctx.outer_uuid)
            },
        },
    )
}

/// Once the container is mapped: a new one gets its filesystem, an old one
/// is searched for the filesystem it should hold.
pub open spec fn ext4_mapped(ctx: Ext4ContextView, m: Ext4MachineView, fresh: bool) -> (
    Ext4MachineView,
    RequestView,
) {
    if fresh {
        ext4_mkfs(ctx, m, true)
    } else {
        ext4_look(m, Ext4Phase::InnerProbe, by_uuid_of(INNER_UUID@))
    }
}

/// The UUID of the filesystem that is made.
pub open spec fn fs_uuid_of(ctx: Ext4ContextView, inner: bool) -> Seq<char> {
    if inner {
        INNER_UUID@
    } else {
        ctx.outer_uuid
    }
}

/// How a run begins. A device of the inventory that carries the volume's
/// UUID is the volume: it is mounted, once unlocked if it is encrypted.
/// Without one the largest unused disk is chosen and set up; with no unused
/// disk the run ends with a `Config` error.
pub open spec fn ext4_first(ctx: Ext4ContextView, blocks: Seq<BlockDevice>) -> (
    Ext4MachineView,
    RequestView,
) {
    let blank = Ext4MachineView {
        phase: Ext4Phase::Finished,
        key: None,
        disk: Seq::empty(),
        tries: 0,
    };
    match existing_volume(blocks, ctx.outer_uuid) {
        Some(path) => {
            let m = Ext4MachineView { disk: path, ..blank };
            if ctx.encryption == EncryptionKind::Unencrypted {
                ext4_mount(m, path)
            } else {
                (
                    Ext4MachineView { phase: Ext4Phase::KeyExisting, ..m },
                    RequestView::AcquireKey { confirm: false },
                )
            }
        },
        None => if unused_candidates(blocks).len() == 0 {
            ext4_finish(blank, Err(Error::Config))
        } else {
            let m = Ext4MachineView { disk: unused_candidates(blocks)[0].path@, ..blank };
            if ctx.encryption == EncryptionKind::Unencrypted {
                ext4_mkfs(ctx, m, false)
            } else {
                (
                    Ext4MachineView { phase: Ext4Phase::KeyFresh, ..m },
                    RequestView::AcquireKey { confirm: true },
                )
            }
        },
    }
}

/// The strategy's rule: the state and the request that follow `reply`.
///
/// A new container is made on the chosen disk, given the volume's UUID,
/// waited for, unlocked, and gets its filesystem. An old container is
/// unlocked and searched for its filesystem; if that never appears it is
/// made anew, for the run that made the container did not get that far. A
/// container that is mapped already is not unlocked again. A device is
/// looked for up to `RETRIES` times, with a pause after each look that found
/// nothing. A reply other than the one waited for ends the run with a
/// failure.
pub open spec fn ext4_next(ctx: Ext4ContextView, m: Ext4MachineView, reply: ReplyView) -> (
    Ext4MachineView,
    RequestView,
) {
    match m.phase {
        Ext4Phase::KeyExisting => match reply {
            ReplyView::Key { key } => (
                Ext4MachineView {
                    phase: Ext4Phase::MapperProbe { fresh: false },
                    key: Some(key),
                    ..m
                },
                RequestView::Probe { path: MAPPER_PATH@ },
            ),
            _ => ext4_finish(m, Err(failure_of(reply))),
        },
        Ext4Phase::KeyFresh => match reply {
            ReplyView::Key { key } => (
                Ext4MachineView { phase: Ext4Phase::LuksFormat, key: Some(key), ..m },
                RequestView::Run { command: luks_format_command_of(m.disk, Some(key)) },
            ),
            _ => ext4_finish(m, Err(failure_of(reply))),
        },
        Ext4Phase::LuksFormat => match reply {
            ReplyView::Ran { success: true, .. } => (
                Ext4MachineView { phase: Ext4Phase::LuksUuid, ..m },
                RequestView::Run { command: luks_uuid_command_of(m.disk, ctx.outer_uuid) },
            ),
            _ => ext4_finish(m, Err(failure_of(reply))),
        },
        Ext4Phase::LuksUuid => match reply {
            ReplyView::Ran { success: true, .. } => ext4_look(
                m,
                Ext4Phase::OuterProbe,
                by_uuid_of(ctx.outer_uuid),
            ),
            _ => ext4_finish(m, Err(failure_of(reply))),
        },
        Ext4Phase::OuterProbe => match reply {
            ReplyView::Exists { found } => if found {
                (
                    Ext4MachineView { phase: Ext4Phase::MapperProbe { fresh: true }, ..m },
                    RequestView::Probe { path: MAPPER_PATH@ },
                )
            } else {
                ext4_pause(m, Ext4Phase::OuterPause)
            },
            _ => ext4_finish(m, Err(failure_of(reply))),
        },
        Ext4Phase::OuterPause => match reply {
            ReplyView::Resumed => if m.tries >= RETRIES {
                ext4_finish(m, Err(Error::Timeout))
            } else {
                (
                    Ext4MachineView { phase: Ext4Phase::OuterProbe, ..m },
                    RequestView::Probe { path: by_uuid_of(ctx.outer_uuid) },
                )
            },
            _ => ext4_finish(m, Err(failure_of(reply))),
        },
        Ext4Phase::MapperProbe { fresh } => match reply {
            ReplyView::Exists { found } => if found {
                ext4_mapped(ctx, m, fresh)
            } else {
                (
                    Ext4MachineView { phase: Ext4Phase::LuksOpen { fresh }, ..m },
                    RequestView::Run { command: luks_open_command_of(ctx.outer_uuid, m.key) },
                )
            },
            _ => ext4_finish(m, Err(failure_of(reply))),
        },
        Ext4Phase::LuksOpen { fresh } => match reply {
            ReplyView::Ran { success: true, .. } => ext4_mapped(ctx, m, fresh),
            _ => ext4_finish(m, Err(failure_of(reply))),
        },
        Ext4Phase::InnerProbe => match reply {
            ReplyView::Exists { found } => if found {
                ext4_mount(m, by_uuid_of(INNER_UUID@))
            } else {
                ext4_pause(m, Ext4Phase::InnerPause)
            },
            _ => ext4_finish(m, Err(failure_of(reply))),
        },
        Ext4Phase::InnerPause => match reply {
            ReplyView::Resumed => if m.tries >= RETRIES {
                ext4_mkfs(ctx, m, true)
            } else {
                (
                    Ext4MachineView { phase: Ext4Phase::InnerProbe, ..m },
                    RequestView::Probe { path: by_uuid_of(INNER_UUID@) },
                )
            },
            _ => ext4_finish(m, Err(failure_of(reply))),
        },
        Ext4Phase::Mkfs { inner } => match reply {
            ReplyView::Ran { success: true, .. } => ext4_look(
                m,
                Ext4Phase::FsProbe { inner },
                by_uuid_of(fs_uuid_of(ctx, inner)),
            ),
            _ => ext4_finish(m, Err(failure_of(reply))),
        },
        Ext4Phase::FsProbe { inner } => match reply {
            ReplyView::Exists { found } => if found {
                ext4_mount(m, by_uuid_of(fs_uuid_of(ctx, inner)))
            } else {
                ext4_pause(m, Ext4Phase::FsPause { inner })
            },
            _ => ext4_finish(m, Err(failure_of(reply))),
        },
        Ext4Phase::FsPause { inner } => match reply {
            ReplyView::Resumed => if m.tries >= RETRIES {
                ext4_finish(m, Err(Error::Timeout))
            } else {
                (
                    Ext4MachineView { phase: Ext4Phase::FsProbe { inner }, ..m },
                    RequestView::Probe { path: by_uuid_of(fs_uuid_of(ctx, inner)) },
                )
            },
            _ => ext4_finish(m, Err(failure_of(reply))),
        },
        Ext4Phase::Mounting => match reply {
            ReplyView::Mounted => if ctx.encryption == EncryptionKind::IndirectKey
                && ctx.extra is Some && m.key is Some {
                (
                    Ext4MachineView { phase: Ext4Phase::Extra, ..m },
                    RequestView::DecryptExtra { key: m.key->0, path: ctx.extra->0 },
                )
            } else {
                ext4_finish(m, Ok(()))
            },
            _ => ext4_finish(m, Err(failure_of(reply))),
        },
        Ext4Phase::Extra => match reply {
            ReplyView::Stored => ext4_finish(m, Ok(())),
            _ => ext4_finish(m, Err(failure_of(reply))),
        },
        Ext4Phase::Finished => ext4_finish(m, Err(Error::Schema)),
    }
}

/// The device path for the UUID `uuid`.
pub fn by_uuid(uuid: &str) -> (r: String)
    ensures
        r@ == by_uuid_of(uuid@),
{
    let mut path = String::from_str("/dev/disk/by-uuid/");
    path.append(uuid);
    path
}

/// The command that makes the filesystem.
pub fn mkfs_command(device: &str, uuid: &str) -> (r: Command)
    ensures
        r@ == mkfs_command_of(device@, uuid@),
{
    let mut c = Command::new("mkfs.ext4");
    c.arg("-F");
    c.arg(device);
    c.arg("-U");
    c.arg(uuid);
    assert(c@.args =~= mkfs_command_of(device@, uuid@).args);
    c
}

/// A copy of a key that may be absent.
fn copy_key(key: &Option<String>) -> (r: Option<String>)
    ensures
        text_option(r) == text_option(*key),
{
    match key {
        Some(k) => Some(k.clone()),
        None => None,
    }
}

/// Has the key, if there is one, fed to the command.
fn feed_key(command: &mut Command, key: Option<String>)
    requires
        old(command)@.stdin is None,
    ensures
        final(command)@ == (CommandView { stdin: text_option(key), ..old(command)@ }),
{
    match key {
        Some(k) => {
            command.feed(k);
        },
        None => {},
    }
}

/// The command that makes the container.
pub fn luks_format_command(device: &str, key: Option<String>) -> (r: Command)
    ensures
        r@ == luks_format_command_of(device@, text_option(key)),
{
    let mut c = Command::new("cryptsetup");
    c.arg("luksFormat");
    c.arg("--type=luks2");
    c.arg("--key-file=-");
    c.arg(device);
    let ghost keyed = text_option(key);
    feed_key(&mut c, key);
    assert(c@.args =~= luks_format_command_of(device@, keyed).args);
    c
}

/// The command that gives the container its UUID.
pub fn luks_uuid_command(device: &str, uuid: &str) -> (r: Command)
    ensures
        r@ == luks_uuid_command_of(device@, uuid@),
{
    let mut c = Command::new("cryptsetup");
    c.arg("luksUUID");
    c.arg("--uuid");
    c.arg(uuid);
    c.arg(device);
    assert(c@.args =~= luks_uuid_command_of(device@, uuid@).args);
    c
}

/// The command that unlocks the container.
pub fn luks_open_command(uuid: &str, key: Option<String>) -> (r: Command)
    ensures
        r@ == luks_open_command_of(uuid@, text_option(key)),
{
    let mut c = Command::new("cryptsetup");
    c.arg("open");
    c.arg("--key-file=-");
    c.arg_owned(by_uuid(uuid));
    c.arg(MAPPER_NAME);
    let ghost keyed = text_option(key);
    feed_key(&mut c, key);
    assert(c@.args =~= luks_open_command_of(uuid@, keyed).args);
    c
}

/// Looks through the top of the inventory for the device that carries the
/// UUID `uuid`.
pub fn find_existing(blocks: &Vec<BlockDevice>, uuid: &str) -> (r: Option<String>)
    ensures
        text_option(r) == existing_volume(blocks@, uuid@),
{
    let mut i: usize = 0;
    assert(blocks@.skip(0) == blocks@);
    while i < blocks.len()
        invariant
            i <= blocks.len(),
            existing_volume(blocks@, uuid@) == existing_volume(blocks@.skip(i as int), uuid@),
        decreases blocks.len() - i,
    {
        let ghost rest = blocks@.skip(i as int);
        assert(rest.drop_first() == blocks@.skip(i + 1));
        let hit = match &blocks[i].uuid {
            Some(found) => text_eq(found.as_str(), uuid),
            None => false,
        };
        if hit {
            return Some(blocks[i].path.clone());
        }
        i += 1;
    }
    None
}

fn finish(machine: Ext4Machine, result: Result<(), Error>) -> (r: (Ext4Machine, Request))
    ensures
        (r.0@, r.1@) == ext4_finish(machine@, result),
{
    let Ext4Machine { phase: _, key, disk, tries } = machine;
    (Ext4Machine { phase: Ext4Phase::Finished, key, disk, tries }, Request::Finish { result })
}

fn look(machine: Ext4Machine, phase: Ext4Phase, path: String) -> (r: (Ext4Machine, Request))
    ensures
        (r.0@, r.1@) == ext4_look(machine@, phase, path@),
{
    let Ext4Machine { phase: _, key, disk, tries: _ } = machine;
    (Ext4Machine { phase, key, disk, tries: 0 }, Request::Probe { path })
}

fn pause(machine: Ext4Machine, phase: Ext4Phase) -> (r: (Ext4Machine, Request))
    ensures
        (r.0@, r.1@) == ext4_pause(machine@, phase),
{
    let Ext4Machine { phase: _, key, disk, tries } = machine;
    let tries = if tries < RETRIES {
        tries + 1
    } else {
        tries
    };
    (Ext4Machine { phase, key, disk, tries }, Request::Pause { seconds: RETRY_SECONDS })
}

fn again(machine: Ext4Machine, phase: Ext4Phase, path: String) -> (r: (Ext4Machine, Request))
    ensures
        r.0@ == (Ext4MachineView { phase, ..machine@ }),
        r.1@ == (RequestView::Probe { path: path@ }),
{
    let Ext4Machine { phase: _, key, disk, tries } = machine;
    (Ext4Machine { phase, key, disk, tries }, Request::Probe { path })
}

fn mount(machine: Ext4Machine, device: String) -> (r: (Ext4Machine, Request))
    ensures
        (r.0@, r.1@) == ext4_mount(machine@, device@),
{
    let Ext4Machine { phase: _, key, disk, tries } = machine;
    (Ext4Machine { phase: Ext4Phase::Mounting, key, disk, tries }, Request::EnsureMounted { device })
}

fn mkfs(ctx: &Ext4Context, machine: Ext4Machine, inner: bool) -> (r: (Ext4Machine, Request))
    ensures
        (r.0@, r.1@) == ext4_mkfs(ctx@, machine@, inner),
{
    let Ext4Machine { phase: _, key, disk, tries } = machine;
    let command = if inner {
        mkfs_command(MAPPER_PATH, INNER_UUID)
    } else {
        mkfs_command(disk.as_str(), ctx.outer_uuid.as_str())
    };
    (Ext4Machine { phase: Ext4Phase::Mkfs { inner }, key, disk, tries }, Request::Run { command })
}

fn mapped(ctx: &Ext4Context, machine: Ext4Machine, fresh: bool) -> (r: (Ext4Machine, Request))
    ensures
        (r.0@, r.1@) == ext4_mapped(ctx@, machine@, fresh),
{
    if fresh {
        mkfs(ctx, machine, true)
    } else {
        look(machine, Ext4Phase::InnerProbe, by_uuid(INNER_UUID))
    }
}

fn fs_uuid(ctx: &Ext4Context, inner: bool) -> (r: String)
    ensures
        r@ == fs_uuid_of(ctx@, inner),
{
    if inner {
        String::from_str(INNER_UUID)
    } else {
        ctx.outer_uuid.clone()
    }
}

/// Begins a run for the device inventory `blocks`.
pub fn ext4_start(ctx: &Ext4Context, blocks: Vec<BlockDevice>) -> (r: (Ext4Machine, Request))
    ensures
        (r.0@, r.1@) == ext4_first(ctx@, blocks@),
{
    let unencrypted = match ctx.encryption {
        EncryptionKind::Unencrypted => true,
        _ => false,
    };
    match find_existing(&blocks, ctx.outer_uuid.as_str()) {
        Some(path) => {
            if unencrypted {
                let device = path.clone();
                mount(
                    Ext4Machine { phase: Ext4Phase::Finished, key: None, disk: path, tries: 0 },
                    device,
                )
            } else {
                (
                    Ext4Machine { phase: Ext4Phase::KeyExisting, key: None, disk: path, tries: 0 },
                    Request::AcquireKey { confirm: false },
                )
            }
        },
        None => {
            let unused = find_unused(blocks);
            if unused.len() == 0 {
                finish(
                    Ext4Machine {
                        phase: Ext4Phase::Finished,
                        key: None,
                        disk: String::new(),
                        tries: 0,
                    },
                    Err(Error::Config),
                )
            } else {
                let disk = unused[0].path.clone();
                if unencrypted {
                    mkfs(
                        ctx,
                        Ext4Machine { phase: Ext4Phase::Finished, key: None, disk, tries: 0 },
                        false,
                    )
                } else {
                    (
                        Ext4Machine { phase: Ext4Phase::KeyFresh, key: None, disk, tries: 0 },
                        Request::AcquireKey { confirm: true },
                    )
                }
            }
        },
    }
}

/// Takes the reply to the last request and says how the run goes on.
pub fn ext4_step(ctx: &Ext4Context, machine: Ext4Machine, reply: Reply) -> (r: (
    Ext4Machine,
    Request,
))
    ensures
        (r.0@, r.1@) == ext4_next(ctx@, machine@, reply@),
{
    let error = failure(&reply);
    match machine.phase {
        Ext4Phase::KeyExisting => match reply {
            Reply::Key { key } => {
                let Ext4Machine { phase: _, key: _, disk, tries } = machine;
                (
                    Ext4Machine {
                        phase: Ext4Phase::MapperProbe { fresh: false },
                        key: Some(key),
                        disk,
                        tries,
                    },
                    Request::Probe { path: String::from_str(MAPPER_PATH) },
                )
            },
            _ => finish(machine, Err(error)),
        },
        Ext4Phase::KeyFresh => match reply {
            Reply::Key { key } => {
                let Ext4Machine { phase: _, key: _, disk, tries } = machine;
                let command = luks_format_command(disk.as_str(), Some(key.clone()));
                (
                    Ext4Machine { phase: Ext4Phase::LuksFormat, key: Some(key), disk, tries },
                    Request::Run { command },
                )
            },
            _ => finish(machine, Err(error)),
        },
        Ext4Phase::LuksFormat => match reply {
            Reply::Ran { exit: Exit::Success { .. } } => {
                let Ext4Machine { phase: _, key, disk, tries } = machine;
                let command = luks_uuid_command(disk.as_str(), ctx.outer_uuid.as_str());
                (
                    Ext4Machine { phase: Ext4Phase::LuksUuid, key, disk, tries },
                    Request::Run { command },
                )
            },
            _ => finish(machine, Err(error)),
        },
        Ext4Phase::LuksUuid => match reply {
            Reply::Ran { exit: Exit::Success { .. } } => look(
                machine,
                Ext4Phase::OuterProbe,
                by_uuid(ctx.outer_uuid.as_str()),
            ),
            _ => finish(machine, Err(error)),
        },
        Ext4Phase::OuterProbe => match reply {
            Reply::Exists { found } => if found {
                again(
                    machine,
                    Ext4Phase::MapperProbe { fresh: true },
                    String::from_str(MAPPER_PATH),
                )
            } else {
                pause(machine, Ext4Phase::OuterPause)
            },
            _ => finish(machine, Err(error)),
        },
        Ext4Phase::OuterPause => match reply {
            Reply::Resumed => if machine.tries >= RETRIES {
                finish(machine, Err(Error::Timeout))
            } else {
                again(machine, Ext4Phase::OuterProbe, by_uuid(ctx.outer_uuid.as_str()))
            },
            _ => finish(machine, Err(error)),
        },
        Ext4Phase::MapperProbe { fresh } => match reply {
            Reply::Exists { found } => if found {
                mapped(ctx, machine, fresh)
            } else {
                let Ext4Machine { phase: _, key, disk, tries } = machine;
                let command = luks_open_command(ctx.outer_uuid.as_str(), copy_key(&key));
                (
                    Ext4Machine { phase: Ext4Phase::LuksOpen { fresh }, key, disk, tries },
                    Request::Run { command },
                )
            },
            _ => finish(machine, Err(error)),
        },
        Ext4Phase::LuksOpen { fresh } => match reply {
            Reply::Ran { exit: Exit::Success { .. } } => mapped(ctx, machine, fresh),
            _ => finish(machine, Err(error)),
        },
        Ext4Phase::InnerProbe => match reply {
            Reply::Exists { found } => if found {
                mount(machine, by_uuid(INNER_UUID))
            } else {
                pause(machine, Ext4Phase::InnerPause)
            },
            _ => finish(machine, Err(error)),
        },
        Ext4Phase::InnerPause => match reply {
            Reply::Resumed => if machine.tries >= RETRIES {
                mkfs(ctx, machine, true)
            } else {
                again(machine, Ext4Phase::InnerProbe, by_uuid(INNER_UUID))
            },
            _ => finish(machine, Err(error)),
        },
        Ext4Phase::Mkfs { inner } => match reply {
            Reply::Ran { exit: Exit::Success { .. } } => look(
                machine,
                Ext4Phase::FsProbe { inner },
                by_uuid(fs_uuid(ctx, inner).as_str()),
            ),
            _ => finish(machine, Err(error)),
        },
        Ext4Phase::FsProbe { inner } => match reply {
            Reply::Exists { found } => if found {
                mount(machine, by_uuid(fs_uuid(ctx, inner).as_str()))
            } else {
                pause(machine, Ext4Phase::FsPause { inner })
            },
            _ => finish(machine, Err(error)),
        },
        Ext4Phase::FsPause { inner } => match reply {
            Reply::Resumed => if machine.tries >= RETRIES {
                finish(machine, Err(Error::Timeout))
            } else {
                again(
                    machine,
                    Ext4Phase::FsProbe { inner },
                    by_uuid(fs_uuid(ctx, inner).as_str()),
                )
            },
            _ => finish(machine, Err(error)),
        },
        Ext4Phase::Mounting => match reply {
            Reply::Mounted => {
                let indirect = match ctx.encryption {
                    EncryptionKind::IndirectKey => true,
                    _ => false,
                };
                if indirect && ctx.extra.is_some() && machine.key.is_some() {
                    let Ext4Machine { phase: _, key, disk, tries } = machine;
                    let copy = copy_key(&key);
                    let path = copy_key(&ctx.extra);
                    (
                        Ext4Machine { phase: Ext4Phase::Extra, key, disk, tries },
                        Request::DecryptExtra { key: copy.unwrap(), path: path.unwrap() },
                    )
                } else {
                    finish(machine, Ok(()))
                }
            },
            _ => finish(machine, Err(error)),
        },
        Ext4Phase::Extra => match reply {
            Reply::Stored => finish(machine, Ok(())),
            _ => finish(machine, Err(error)),
        },
        Ext4Phase::Finished => finish(machine, Err(Error::Schema)),
    }
}

/// The states of a run that has nothing to do with encryption.
pub open spec fn plain_phase(phase: Ext4Phase) -> bool {
    phase == (Ext4Phase::Mkfs { inner: false }) || phase == (Ext4Phase::FsProbe { inner: false })
        || phase == (Ext4Phase::FsPause { inner: false }) || phase == Ext4Phase::Mounting || phase
        == Ext4Phase::Finished
}

/// The requests that have nothing to do with encryption: no key is asked
/// for, nothing is decrypted, and the only tool that is run makes the
/// filesystem and is fed nothing.
pub open spec fn plain_request(request: RequestView) -> bool {
    match request {
        RequestView::Run { command } => command.program == "mkfs.ext4"@ && command.stdin is None,
        RequestView::Probe { .. } => true,
        RequestView::Pause { .. } => true,
        RequestView::EnsureMounted { .. } => true,
        RequestView::Finish { .. } => true,
        _ => false,
    }
}

/// Without encryption nothing of a run touches encryption, from its first
/// request to its last.
pub proof fn lemma_unencrypted_run_is_plain(
    ctx: Ext4ContextView,
    blocks: Seq<BlockDevice>,
    m: Ext4MachineView,
    reply: ReplyView,
)
    requires
        ctx.encryption == EncryptionKind::Unencrypted,
    ensures
        plain_phase(ext4_first(ctx, blocks).0.phase),
        plain_request(ext4_first(ctx, blocks).1),
        plain_phase(m.phase) ==> plain_phase(ext4_next(ctx, m, reply).0.phase) && plain_request(
            ext4_next(ctx, m, reply).1,
        ),
{
}

/// A device is never looked for more often than `RETRIES` times, and a run
/// gives a device up only when that many looks found nothing.
pub proof fn lemma_retry_budget(ctx: Ext4ContextView, m: Ext4MachineView, reply: ReplyView)
    requires
        m.tries <= RETRIES,
    ensures
        ext4_next(ctx, m, reply).0.tries <= RETRIES,
        reply is Resumed && ext4_next(ctx, m, reply).1 == (RequestView::Finish {
            result: Err(Error::Timeout),
        }) ==> m.tries == RETRIES,
        reply is Resumed && m.tries < RETRIES && (m.phase == Ext4Phase::OuterPause || m.phase
            == Ext4Phase::InnerPause || m.phase is FsPause) ==> ext4_next(ctx, m, reply).1 is Probe,
{
}

/// A filesystem is made in three cases only: on the largest unused disk of
/// an inventory without the volume, inside a container that this run made,
/// or inside an old container whose filesystem did not appear within the
/// retry budget.
pub proof fn lemma_when_filesystem_is_made(
    ctx: Ext4ContextView,
    blocks: Seq<BlockDevice>,
    m: Ext4MachineView,
    reply: ReplyView,
)
    ensures
        ext4_first(ctx, blocks).0.phase is Mkfs ==> existing_volume(blocks, ctx.outer_uuid)
            is None && unused_candidates(blocks).len() > 0 && ext4_first(ctx, blocks).1 == (
        RequestView::Run {
            command: mkfs_command_of(unused_candidates(blocks)[0].path@, ctx.outer_uuid),
        }),
        ext4_next(ctx, m, reply).0.phase is Mkfs ==> ext4_next(ctx, m, reply).1 == (
        RequestView::Run { command: mkfs_command_of(MAPPER_PATH@, INNER_UUID@) }) && ((m.phase
            == Ext4Phase::InnerPause && m.tries >= RETRIES) || m.phase == (Ext4Phase::MapperProbe {
            fresh: true,
        }) || m.phase == (Ext4Phase::LuksOpen { fresh: true })),
{
}

/// A container that is mapped already is not unlocked again: when the look
/// for the mapped device finds it, the next request is no command that
/// unlocks, and the key is not handed out.
pub proof fn lemma_mapped_container_left_alone(
    ctx: Ext4ContextView,
    m: Ext4MachineView,
    fresh: bool,
)
    requires
        m.phase == (Ext4Phase::MapperProbe { fresh }),
    ensures
        ext4_next(ctx, m, ReplyView::Exists { found: true }).1 == if fresh {
            RequestView::Run { command: mkfs_command_of(MAPPER_PATH@, INNER_UUID@) }
        } else {
            RequestView::Probe { path: by_uuid_of(INNER_UUID@) }
        },
        ext4_next(ctx, m, ReplyView::Exists { found: false }).1 == (RequestView::Run {
            command: luks_open_command_of(ctx.outer_uuid, m.key),
        }),
{
}

} // verus!
