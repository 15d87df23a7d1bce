//! The pool filesystem: finding out which of its devices are lost, taking new
//! disks in, and setting up a pool where there is none.

use crate::blockdev::{find_unused, unused_candidates, BlockDevice};
use crate::command::{commands_view, Command, CommandView};
use crate::error::Error;
use crate::text::{
    after_prefix, chars_of, contains_text, decimal, decimal_text, parse_decimal, parse_index,
    strip_prefix, texts,
};
use vstd::prelude::*;
use vstd::string::*;

verus! {

/// What the pool's status directory shows for one entry.
#[derive(Debug, PartialEq, Eq)]
pub struct SlotEntry {
    /// Name of the entry; device slots are called `dev-` and a number.
    pub name: String,
    /// File name of the block device behind the slot; `None` where the slot
    /// has lost its device.
    pub block: Option<String>,
}

/// The content of a `SlotEntry`.
pub struct SlotEntryView {
    pub name: Seq<char>,
    pub block: Option<Seq<char>>,
}

impl View for SlotEntry {
    type V = SlotEntryView;

    open spec fn view(&self) -> SlotEntryView {
        SlotEntryView {
            name: self.name@,
            block: match self.block {
                Some(b) => Some(b@),
                None => None,
            },
        }
    }
}

/// The content of each entry of a status directory.
pub open spec fn slots_view(entries: Seq<SlotEntry>) -> Seq<SlotEntryView> {
    entries.map_values(|e: SlotEntry| e@)
}

/// What the status directory says of the pool.
#[derive(Debug, PartialEq, Eq)]
pub struct PoolSurvey {
    /// Slots that have lost their device, in the order of the directory.
    pub missing: Vec<usize>,
    /// File names of the devices that the pool holds.
    pub members: Vec<String>,
    /// The highest slot number in use; 0 where there is no slot.
    pub last_index: usize,
}

/// The content of a `PoolSurvey`.
pub struct PoolSurveyView {
    pub missing: Seq<usize>,
    pub members: Seq<Seq<char>>,
    pub last_index: usize,
}

impl View for PoolSurvey {
    type V = PoolSurveyView;

    open spec fn view(&self) -> PoolSurveyView {
        PoolSurveyView {
            missing: self.missing@,
            members: texts(self.members@),
            last_index: self.last_index,
        }
    }
}

/// The slot number in the name of a status entry; `None` for an entry that
/// is no device slot.
pub open spec fn slot_index_of(name: Seq<char>) -> Option<nat> {
    match after_prefix(name, "dev-"@) {
        Some(rest) => parse_decimal(rest),
        None => None,
    }
}

/// Reads the slot number off the name of a status entry.
pub fn slot_index(name: &str) -> (r: Option<usize>)
    ensures
        match r {
            Some(n) => slot_index_of(name@) == Some(n as nat),
            None => slot_index_of(name@) is None,
        },
{
    match strip_prefix(name, "dev-") {
        Some(rest) => parse_index(rest.as_str()),
        None => None,
    }
}

/// The survey of a status directory: entries that are no device slots count
/// for nothing; a slot with a device adds to the members, one without to the
/// missing.
pub open spec fn survey_of(entries: Seq<SlotEntryView>) -> PoolSurveyView
    decreases entries.len(),
{
    if entries.len() == 0 {
        PoolSurveyView { missing: Seq::empty(), members: Seq::empty(), last_index: 0 }
    } else {
        let before = survey_of(entries.drop_last());
        let entry = entries.last();
        match slot_index_of(entry.name) {
            None => before,
            Some(index) => PoolSurveyView {
                missing: match entry.block {
                    Some(_) => before.missing,
                    None => before.missing.push(index as usize),
                },
                members: match entry.block {
                    Some(b) => before.members.push(b),
                    None => before.members,
                },
                last_index: if index > before.last_index {
                    index as usize
                } else {
                    before.last_index
                },
            },
        }
    }
}

/// Surveys the pool's status directory.
pub fn survey(entries: Vec<SlotEntry>) -> (r: PoolSurvey)
    ensures
        r@ == survey_of(slots_view(entries@)),
{
    let ghost all = slots_view(entries@);
    let mut entries = entries;
    let mut out = PoolSurvey { missing: Vec::new(), members: Vec::new(), last_index: 0 };
    let ghost mut done: int = 0;
    assert(texts(out.members@) =~= Seq::empty());
    while entries.len() > 0
        invariant
            0 <= done <= all.len(),
            slots_view(entries@) == all.skip(done),
            out@ == survey_of(all.take(done)),
        decreases entries.len(),
    {
        let ghost members_before = out.members@;
        let entry = entries.remove(0);
        proof {
            assert(all.skip(done).len() == all.len() - done);
            assert(all.skip(done)[0] == all[done]);
            assert(slots_view(entries@) =~= all.skip(done + 1)) by {
                assert forall|i: int| 0 <= i < entries@.len() implies slots_view(entries@)[i]
                    == all.skip(done + 1)[i] by {
                    assert(all.skip(done)[i + 1] == all[done + i + 1]);
                }
            }
            assert(all.take(done + 1).drop_last() == all.take(done));
        }
        match slot_index(entry.name.as_str()) {
            None => {},
            Some(index) => {
                if index > out.last_index {
                    out.last_index = index;
                }
                match entry.block {
                    Some(b) => {
                        out.members.push(b);
                        assert(texts(out.members@) =~= texts(members_before).push(b@));
                    },
                    None => {
                        out.missing.push(index);
                    },
                }
            },
        }
        proof {
            done = done + 1;
        }
    }
    assert(all.take(done) == all);
    out
}

/// Position of the last `c` in `s`; -1 where `s` holds none.
pub open spec fn last_index_of(s: Seq<char>, c: char) -> int
    decreases s.len(),
{
    if s.len() == 0 {
        -1
    } else if s.last() == c {
        s.len() - 1
    } else {
        last_index_of(s.drop_last(), c)
    }
}

/// The last part of a path: what follows its last `/`, or all of it.
pub open spec fn file_name_of(path: Seq<char>) -> Seq<char> {
    path.skip(last_index_of(path, '/') + 1)
}

/// The last part of `path`.
pub fn file_name(path: &str) -> (r: String)
    ensures
        r@ == file_name_of(path@),
{
    let chars = chars_of(path);
    let mut end: usize = chars.len();
    assert(path@.take(end as int) == path@);
    while end > 0 && chars[end - 1] != '/'
        invariant
            chars@ == path@,
            end <= chars.len(),
            last_index_of(path@, '/') == last_index_of(path@.take(end as int), '/'),
        decreases end,
    {
        assert(path@.take(end as int).drop_last() == path@.take(end - 1));
        end -= 1;
    }
    String::from_str(path.substring_char(end, chars.len()))
}

/// The class of a device by its kind of media. A device of unknown kind
/// counts as spinning.
pub open spec fn class_of(rota: Option<bool>) -> Seq<char> {
    if rota == Some(false) {
        "ssd"@
    } else {
        "hdd"@
    }
}

/// The label of the device in slot `index`: its class, `.d` and the number.
pub open spec fn label_of(rota: Option<bool>, index: nat) -> Seq<char> {
    class_of(rota) + ".d"@ + decimal(index)
}

/// The class of a device.
pub fn class(rota: Option<bool>) -> (r: &'static str)
    ensures
        r@ == class_of(rota),
{
    match rota {
        Some(false) => "ssd",
        _ => "hdd",
    }
}

/// The label of the device in slot `index`.
pub fn label(rota: Option<bool>, index: usize) -> (r: String)
    ensures
        r@ == label_of(rota, index as nat),
{
    let mut text = String::from_str(class(rota));
    text.append(".d");
    text.append(decimal_text(index).as_str());
    text
}

/// Takes the device `device` into the pool mounted at `mount`, as slot
/// `index`.
pub open spec fn add_command(
    mount: Seq<char>,
    rota: Option<bool>,
    index: nat,
    device: Seq<char>,
) -> CommandView {
    CommandView {
        program: "bcachefs"@,
        args: seq!["device"@, "add"@, "--label"@, label_of(rota, index), mount, device],
        stdin: None,
    }
}

/// Takes slot `index` out of the pool mounted at `mount`.
pub open spec fn remove_command(index: usize, mount: Seq<char>) -> CommandView {
    CommandView {
        program: "bcachefs"@,
        args: seq!["device"@, "remove"@, decimal(index as nat), mount],
        stdin: None,
    }
}

/// Has the pool mounted at `mount` bring every piece of data back to its
/// number of copies.
pub open spec fn rereplicate_command(mount: Seq<char>) -> CommandView {
    CommandView { program: "bcachefs"@, args: seq!["data"@, "rereplicate"@, mount], stdin: None }
}

/// A disk is new to the pool when no member has its file name.
pub open spec fn is_newcomer(device: BlockDevice, members: Seq<Seq<char>>) -> bool {
    !members.contains(file_name_of(device.path@))
}

/// The disks among `unused` that are new to the pool.
pub open spec fn newcomers(unused: Seq<BlockDevice>, members: Seq<Seq<char>>) -> Seq<
    BlockDevice,
> {
    unused.filter(|d: BlockDevice| is_newcomer(d, members))
}

/// One command for each new disk; the slots are numbered on from
/// `last_index`.
pub open spec fn additions(new: Seq<BlockDevice>, mount: Seq<char>, last_index: nat) -> Seq<
    CommandView,
> {
    Seq::new(
        new.len(),
        |i: int| add_command(mount, new[i].rota, (last_index + 1 + i) as nat, new[i].path@),
    )
}

/// One command for each slot that has lost its device.
pub open spec fn removals(missing: Seq<usize>, mount: Seq<char>) -> Seq<CommandView> {
    Seq::new(missing.len(), |i: int| remove_command(missing[i], mount))
}

/// What brings a mounted pool up to date: every unused disk that is new to it
/// is added, every slot that lost its device is removed, and if a disk was
/// added the data is spread anew.
pub open spec fn reconcile_commands(
    survey: PoolSurveyView,
    unused: Seq<BlockDevice>,
    mount: Seq<char>,
) -> Seq<CommandView> {
    let new = newcomers(unused, survey.members);
    additions(new, mount, survey.last_index as nat) + removals(survey.missing, mount) + (
    if new.len() > 0 {
        seq![rereplicate_command(mount)]
    } else {
        Seq::empty()
    })
}

/// Plans the commands that bring the pool mounted at `mount_path` up to
/// date. `blocks` is the device inventory. The plan fails only if the slot
/// numbers run out.
pub fn reconcile_plan(survey: &PoolSurvey, blocks: Vec<BlockDevice>, mount_path: &str) -> (r:
    Result<Vec<Command>, Error>)
    ensures
        survey.last_index + newcomers(unused_candidates(blocks@), survey@.members).len()
            <= usize::MAX ==> r is Ok && commands_view(r->Ok_0@) == reconcile_commands(
            survey@,
            unused_candidates(blocks@),
            mount_path@,
        ),
        survey.last_index + newcomers(unused_candidates(blocks@), survey@.members).len()
            > usize::MAX ==> r == Err::<Vec<Command>, Error>(Error::Config),
{
    let unused = find_unused(blocks);
    let ghost members = survey@.members;
    let ghost pred = |d: BlockDevice| is_newcomer(d, members);
    let ghost all = unused@;
    let ghost mount = mount_path@;
    let ghost last = survey.last_index as nat;
    let mut plan: Vec<Command> = Vec::new();
    let mut index: usize = survey.last_index;
    let mut i: usize = 0;
    assert(all.take(0).filter(pred) =~= Seq::empty());
    assert(commands_view(plan@) =~= additions(Seq::empty(), mount, last));
    while i < unused.len()
        invariant
            i <= unused.len(),
            all == unused@,
            all == unused_candidates(blocks@),
            mount == mount_path@,
            members == survey@.members,
            last == survey.last_index,
            pred == |d: BlockDevice| is_newcomer(d, members),
            index == last + all.take(i as int).filter(pred).len(),
            commands_view(plan@) == additions(all.take(i as int).filter(pred), mount, last),
        decreases unused.len() - i,
    {
        let device = &unused[i];
        let ghost sofar = all.take(i as int).filter(pred);
        proof {
            assert(all.take(i + 1) == all.take(i as int).push(*device));
            all.take(i as int).lemma_filter_push(*device, pred);
            all.lemma_filter_take_len(pred, i + 1);
        }
        let name = file_name(device.path.as_str());
        if !contains_text(&survey.members, name.as_str()) {
            if index == usize::MAX {
                assert(all.take(i + 1).filter(pred).len() == sofar.len() + 1);
                return Err(Error::Config);
            }
            index += 1;
            let mut c = Command::new("bcachefs");
            c.arg("device");
            c.arg("add");
            c.arg("--label");
            c.arg_owned(label(device.rota, index));
            c.arg(mount_path);
            c.arg(device.path.as_str());
            proof {
                assert(c@.args =~= add_command(
                    mount,
                    device.rota,
                    (last + 1 + sofar.len()) as nat,
                    device.path@,
                ).args);
            }
            let ghost before = plan@;
            plan.push(c);
            proof {
                assert(commands_view(plan@) =~= commands_view(before).push(c@));
            }
        }
        i += 1;
    }
    assert(all.take(unused.len() as int) == all);
    let ghost new = all.filter(pred);
    let added = plan.len() > 0;
    assert(commands_view(plan@).len() == plan.len());
    let mut k: usize = 0;
    let ghost adds = commands_view(plan@);
    assert(adds + removals(survey.missing@.take(0), mount) =~= adds);
    while k < survey.missing.len()
        invariant
            k <= survey.missing.len(),
            mount == mount_path@,
            commands_view(plan@) == adds + removals(survey.missing@.take(k as int), mount),
        decreases survey.missing.len() - k,
    {
        let slot = survey.missing[k];
        let mut c = Command::new("bcachefs");
        c.arg("device");
        c.arg("remove");
        c.arg_owned(decimal_text(slot));
        c.arg(mount_path);
        proof {
            assert(c@.args =~= remove_command(slot, mount).args);
        }
        let ghost before = plan@;
        plan.push(c);
        proof {
            assert(commands_view(plan@) =~= commands_view(before).push(c@));
        }
        k += 1;
    }
    assert(survey.missing@.take(survey.missing.len() as int) == survey.missing@);
    if added {
        let mut c = Command::new("bcachefs");
        c.arg("data");
        c.arg("rereplicate");
        c.arg(mount_path);
        proof {
            assert(c@.args =~= rereplicate_command(mount).args);
        }
        plan.push(c);
    }
    assert(commands_view(plan@) =~= reconcile_commands(survey@, all, mount));
    Ok(plan)
}

/// The shape of a plan: first one addition for each new disk, with slot
/// numbers that follow on the highest in use, then one removal for each slot
/// that lost its device, and last, exactly if a disk was added, the command
/// that spreads the data anew.
pub proof fn lemma_reconcile_commands(
    survey: PoolSurveyView,
    unused: Seq<BlockDevice>,
    mount: Seq<char>,
)
    ensures
        ({
            let new = newcomers(unused, survey.members);
            let plan = reconcile_commands(survey, unused, mount);
            &&& plan.len() == new.len() + survey.missing.len() + if new.len() > 0 {
                1int
            } else {
                0int
            }
            &&& forall|i: int|
                0 <= i < new.len() ==> #[trigger] plan[i] == add_command(
                    mount,
                    new[i].rota,
                    (survey.last_index + 1 + i) as nat,
                    new[i].path@,
                )
            &&& forall|j: int|
                0 <= j < survey.missing.len() ==> #[trigger] plan[new.len() + j]
                    == remove_command(survey.missing[j], mount)
            &&& new.len() > 0 ==> plan.last() == rereplicate_command(mount)
            &&& forall|i: int| 0 <= i < new.len() ==> unused.contains(#[trigger] new[i])
        }),
{
    let new = newcomers(unused, survey.members);
    assert forall|i: int| 0 <= i < new.len() implies unused.contains(#[trigger] new[i]) by {
        unused.lemma_filter_contains_rev(|d: BlockDevice| is_newcomer(d, survey.members), new[i]);
    }
}

/// Fewest disks that a new pool needs: every piece of data is kept twice.
pub const MIN_DEVICES: usize = 2;

/// The arguments that name the devices of a new pool: for each device its
/// label, numbered from 0 in the order of the list, and its path.
pub open spec fn device_args(devices: Seq<BlockDevice>) -> Seq<Seq<char>>
    decreases devices.len(),
{
    if devices.len() == 0 {
        Seq::empty()
    } else {
        device_args(devices.drop_last()) + seq![
            "--label="@ + label_of(devices.last().rota, (devices.len() - 1) as nat),
            devices.last().path@,
        ]
    }
}

/// Whether a solid-state device is among `devices`.
pub open spec fn has_ssd(devices: Seq<BlockDevice>) -> bool {
    exists|i: int| 0 <= i < devices.len() && (#[trigger] devices[i]).rota == Some(false)
}

/// Whether a spinning device, or one of unknown kind, is among `devices`.
pub open spec fn has_hdd(devices: Seq<BlockDevice>) -> bool {
    exists|i: int| 0 <= i < devices.len() && (#[trigger] devices[i]).rota != Some(false)
}

/// Sets up a pool with the UUID `uuid` across `devices`: two copies of
/// everything, compressed, encrypted with `key` if there is one. Solid-state
/// devices serve reads and take writes first; spinning ones are where data
/// settles.
pub open spec fn format_command(
    uuid: Seq<char>,
    key: Option<Seq<char>>,
    devices: Seq<BlockDevice>,
) -> CommandView {
    CommandView {
        program: "bcachefs"@,
        args: seq![
            "format"@,
            "--uuid="@ + uuid,
            "--force"@,
            "--replicas=2"@,
            "--metadata_replicas_required=2"@,
            "--data_replicas_required=2"@,
            "--compression=zstd"@,
        ] + (if key is Some {
            seq!["--encrypted"@]
        } else {
            Seq::empty()
        }) + device_args(devices) + (if has_ssd(devices) {
            seq!["--promote_target=ssd"@, "--foreground_target=ssd"@]
        } else {
            Seq::empty()
        }) + (if has_hdd(devices) {
            seq!["--background_target=hdd"@]
        } else {
            Seq::empty()
        }),
        stdin: key,
    }
}

/// Plans the command that sets up a new pool across all unused disks of the
/// inventory `blocks`. With fewer than `MIN_DEVICES` unused disks there is
/// nothing to be done: that is a `Config` error.
pub fn format_plan(uuid: &str, key: Option<String>, blocks: Vec<BlockDevice>) -> (r: Result<
    Command,
    Error,
>)
    ensures
        unused_candidates(blocks@).len() >= MIN_DEVICES ==> r is Ok && r->Ok_0@ == format_command(
            uuid@,
            crate::command::text_option(key),
            unused_candidates(blocks@),
        ),
        unused_candidates(blocks@).len() < MIN_DEVICES ==> r == Err::<Command, Error>(
            Error::Config,
        ),
{
    let unused = find_unused(blocks);
    if unused.len() < MIN_DEVICES {
        return Err(Error::Config);
    }
    let ghost all = unused@;
    let mut c = Command::new("bcachefs");
    c.arg("format");
    let mut uuid_arg = String::from_str("--uuid=");
    uuid_arg.append(uuid);
    c.arg_owned(uuid_arg);
    c.arg("--force");
    c.arg("--replicas=2");
    c.arg("--metadata_replicas_required=2");
    c.arg("--data_replicas_required=2");
    c.arg("--compression=zstd");
    if key.is_some() {
        c.arg("--encrypted");
    }
    let ghost head = c@.args;
    let mut ssd = false;
    let mut hdd = false;
    let mut i: usize = 0;
    assert(head + device_args(all.take(0)) =~= head);
    while i < unused.len()
        invariant
            i <= unused.len(),
            all == unused@,
            c@.program == "bcachefs"@,
            c@.stdin is None,
            c@.args == head + device_args(all.take(i as int)),
            ssd == has_ssd(all.take(i as int)),
            hdd == has_hdd(all.take(i as int)),
        decreases unused.len() - i,
    {
        let device = &unused[i];
        let ghost sofar = all.take(i as int);
        let ghost next = all.take(i + 1);
        proof {
            assert(next.drop_last() == sofar);
        }
        let mut label_arg = String::from_str("--label=");
        label_arg.append(label(device.rota, i).as_str());
        c.arg_owned(label_arg);
        c.arg(device.path.as_str());
        proof {
            if has_ssd(sofar) {
                let k = choose|k: int| 0 <= k < sofar.len() && (#[trigger] sofar[k]).rota == Some(false);
                assert(next[k].rota == Some(false));
            }
            if has_hdd(sofar) {
                let k = choose|k: int| 0 <= k < sofar.len() && (#[trigger] sofar[k]).rota != Some(false);
                assert(next[k].rota != Some(false));
            }
            if has_ssd(next) {
                let k = choose|k: int| 0 <= k < next.len() && (#[trigger] next[k]).rota == Some(false);
                if k < i {
                    assert(sofar[k].rota == Some(false));
                }
            }
            if has_hdd(next) {
                let k = choose|k: int| 0 <= k < next.len() && (#[trigger] next[k]).rota != Some(false);
                if k < i {
                    assert(sofar[k].rota != Some(false));
                }
            }
        }
        match device.rota {
            Some(false) => {
                ssd = true;
            },
            _ => {
                hdd = true;
            },
        }
        i += 1;
    }
    assert(all.take(unused.len() as int) == all);
    if ssd {
        c.arg("--promote_target=ssd");
        c.arg("--foreground_target=ssd");
    }
    if hdd {
        c.arg("--background_target=hdd");
    }
    let ghost keyed = crate::command::text_option(key);
    match key {
        Some(k) => {
            c.feed(k);
        },
        None => {},
    }
    assert(c@.args =~= format_command(uuid@, keyed, all).args);
    Ok(c)
}

/// Mounts the pool with the UUID `uuid` at `mount`, even if a device is
/// lost, checking and mending it on the way. The key, if there is one, is
/// read from standard input; without one an encrypted pool is not mounted.
pub open spec fn mount_command_of(
    uuid: Seq<char>,
    mount: Seq<char>,
    key: Option<Seq<char>>,
) -> CommandView {
    CommandView {
        program: "bcachefs"@,
        args: seq![
            "mount"@,
            "-o"@,
            "degraded,fsck,fix_errors"@,
            "UUID="@ + uuid,
            mount,
            if key is Some {
                "--key_location=stdin"@
            } else {
                "--key_location=fail"@
            },
        ],
        stdin: key,
    }
}

/// The command that mounts the pool.
pub fn mount_command(uuid: &str, mount_path: &str, key: Option<String>) -> (r: Command)
    ensures
        r@ == mount_command_of(uuid@, mount_path@, crate::command::text_option(key)),
{
    let mut c = Command::new("bcachefs");
    c.arg("mount");
    c.arg("-o");
    c.arg("degraded,fsck,fix_errors");
    let mut uuid_arg = String::from_str("UUID=");
    uuid_arg.append(uuid);
    c.arg_owned(uuid_arg);
    c.arg(mount_path);
    let ghost keyed = crate::command::text_option(key);
    match key {
        Some(k) => {
            c.arg("--key_location=stdin");
            c.feed(k);
        },
        None => {
            c.arg("--key_location=fail");
        },
    }
    assert(c@.args =~= mount_command_of(uuid@, mount_path@, keyed).args);
    c
}

/// Looks for the superblock of the pool with the UUID `uuid`; the command
/// ends well exactly when there is such a pool.
pub open spec fn probe_command_of(uuid: Seq<char>) -> CommandView {
    CommandView {
        program: "bcachefs"@,
        args: seq!["show-super"@, "/dev/disk/by-uuid/"@ + uuid],
        stdin: None,
    }
}

/// The command that looks for the pool.
pub fn probe_command(uuid: &str) -> (r: Command)
    ensures
        r@ == probe_command_of(uuid@),
{
    let mut c = Command::new("bcachefs");
    c.arg("show-super");
    let mut path = String::from_str("/dev/disk/by-uuid/");
    path.append(uuid);
    c.arg_owned(path);
    assert(c@.args =~= probe_command_of(uuid@).args);
    c
}

/// Lets go of whatever is mounted at `mount` without waiting for its users.
pub open spec fn cleanup_command_of(mount: Seq<char>) -> CommandView {
    CommandView { program: "umount"@, args: seq!["--lazy"@, mount], stdin: None }
}

/// The command that undoes a mount after a failure.
pub fn cleanup_command(mount_path: &str) -> (r: Command)
    ensures
        r@ == cleanup_command_of(mount_path@),
{
    let mut c = Command::new("umount");
    c.arg("--lazy");
    c.arg(mount_path);
    assert(c@.args =~= cleanup_command_of(mount_path@).args);
    c
}

} // verus!
