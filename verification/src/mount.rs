//! Mounting by way of a sibling directory: the filesystem is mounted on a
//! fresh directory beside the mount point, and the directory is then renamed
//! onto the mount point. Whoever loses that race, or fails on the way, takes
//! back what it made.

use crate::error::Error;
use crate::guard::{defer, Deferred};
use crate::pool::last_index_of;
use crate::text::{chars_of, decimal, decimal_text, text_eq};
use vstd::prelude::*;
use vstd::string::*;

verus! {

/// Something for the caller to do to the filesystem.
#[derive(Debug, PartialEq, Eq)]
pub enum FsRequest {
    /// Make the directory `name` in `parent`, for its owner to write and for
    /// all to read; reply `Exists` if the name is taken.
    MakeDir { parent: String, name: String },
    /// Mount the ext4 filesystem of the device `source` on `target`, without
    /// recording access times.
    Mount { source: String, target: String },
    /// Rename `from` to `to`, both in `parent`; reply `Exists` if `to` is
    /// there and cannot be replaced.
    Rename { parent: String, from: String, to: String },
    /// Let go of what is mounted on `target`, without waiting for its users.
    Unmount { target: String },
    /// Remove the directory `name` in `parent`.
    RemoveDir { parent: String, name: String },
    /// Nothing more: mounting has ended with `result`.
    Finish { result: Result<(), Error> },
}

/// The content of an `FsRequest`.
pub enum FsRequestView {
    MakeDir { parent: Seq<char>, name: Seq<char> },
    Mount { source: Seq<char>, target: Seq<char> },
    Rename { parent: Seq<char>, from: Seq<char>, to: Seq<char> },
    Unmount { target: Seq<char> },
    RemoveDir { parent: Seq<char>, name: Seq<char> },
    Finish { result: Result<(), Error> },
}

impl View for FsRequest {
    type V = FsRequestView;

    open spec fn view(&self) -> FsRequestView {
        match self {
            FsRequest::MakeDir { parent, name } => FsRequestView::MakeDir {
                parent: parent@,
                name: name@,
            },
            FsRequest::Mount { source, target } => FsRequestView::Mount {
                source: source@,
                target: target@,
            },
            FsRequest::Rename { parent, from, to } => FsRequestView::Rename {
                parent: parent@,
                from: from@,
                to: to@,
            },
            FsRequest::Unmount { target } => FsRequestView::Unmount { target: target@ },
            FsRequest::RemoveDir { parent, name } => FsRequestView::RemoveDir {
                parent: parent@,
                name: name@,
            },
            FsRequest::Finish { result } => FsRequestView::Finish { result: *result },
        }
    }
}

/// What came of a request to the filesystem.
#[derive(Clone, Copy, Debug, PartialEq, Eq, Structural)]
pub enum FsReply {
    /// It was done.
    Done,
    /// It was not done because the name is taken.
    Exists,
    /// It was not done, for any other reason.
    Failed,
}

/// Where to mount, and what.
#[derive(Debug, PartialEq, Eq)]
pub struct MountTarget {
    /// The directory that holds the mount point.
    pub parent: String,
    /// The name of the mount point in that directory.
    pub name: String,
    /// The device to mount.
    pub source: String,
}

/// The content of a `MountTarget`.
pub struct MountTargetView {
    pub parent: Seq<char>,
    pub name: Seq<char>,
    pub source: Seq<char>,
}

impl View for MountTarget {
    type V = MountTargetView;

    open spec fn view(&self) -> MountTargetView {
        MountTargetView { parent: self.parent@, name: self.name@, source: self.source@ }
    }
}

/// `path` without the slashes at its end; the root stays.
pub open spec fn without_trailing_slashes(path: Seq<char>) -> Seq<char>
    decreases path.len(),
{
    if path.len() > 1 && path.last() == '/' {
        without_trailing_slashes(path.drop_last())
    } else {
        path
    }
}

/// The target for mounting the device `source` at `path`. The path has to be
/// absolute and to end in a name: the root has no parent to hold the sibling
/// directory, and `.` and `..` are no names.
pub open spec fn target_of(path: Seq<char>, source: Seq<char>) -> Result<MountTargetView, Error> {
    let p = without_trailing_slashes(path);
    let cut = last_index_of(p, '/');
    let name = p.skip(cut + 1);
    if p.len() == 0 || p[0] != '/' || name.len() == 0 || name == "."@ || name == ".."@ {
        Err(Error::Config)
    } else {
        Ok(
            MountTargetView {
                parent: if cut == 0 {
                    "/"@
                } else {
                    p.take(cut)
                },
                name,
                source,
            },
        )
    }
}

/// Works out where to mount the device `source` for the mount point
/// `mount_path`.
pub fn mount_target(mount_path: &str, source: &str) -> (r: Result<MountTarget, Error>)
    ensures
        match target_of(mount_path@, source@) {
            Ok(target) => r is Ok && r->Ok_0@ == target,
            Err(error) => r == Err::<MountTarget, Error>(error),
        },
{
    let chars = chars_of(mount_path);
    let mut end: usize = chars.len();
    assert(mount_path@.take(end as int) == mount_path@);
    while end > 1 && chars[end - 1] == '/'
        invariant
            chars@ == mount_path@,
            end <= chars.len(),
            without_trailing_slashes(mount_path@) == without_trailing_slashes(
                mount_path@.take(end as int),
            ),
        decreases end,
    {
        assert(mount_path@.take(end as int).drop_last() == mount_path@.take(end - 1));
        end -= 1;
    }
    let ghost p = mount_path@.take(end as int);
    if end == 0 || chars[0] != '/' {
        return Err(Error::Config);
    }
    let mut cut: usize = end;
    assert(p.take(cut as int) == p);
    while cut > 0 && chars[cut - 1] != '/'
        invariant
            chars@ == mount_path@,
            p == mount_path@.take(end as int),
            cut <= end <= chars.len(),
            last_index_of(p, '/') == last_index_of(p.take(cut as int), '/'),
        decreases cut,
    {
        assert(p.take(cut as int).drop_last() == p.take(cut - 1));
        cut -= 1;
    }
    assert(cut > 0) by {
        if cut == 0 {
            assert(p.take(0).len() == 0);
            assert(last_index_of(p, '/') == -1);
            lemma_last_index_finds(p, '/', 0);
        }
    }
    let name = String::from_str(mount_path.substring_char(cut, end));
    assert(name@ == p.skip(cut as int));
    if name.as_str().unicode_len() == 0 || text_eq(name.as_str(), ".") || text_eq(
        name.as_str(),
        "..",
    ) {
        return Err(Error::Config);
    }
    let parent = if cut == 1 {
        String::from_str("/")
    } else {
        assert(mount_path@.subrange(0, cut - 1) == p.take(cut - 1));
        String::from_str(mount_path.substring_char(0, cut - 1))
    };
    Ok(MountTarget { parent, name, source: String::from_str(source) })
}

/// A character that occurs in a text is found by `last_index_of`.
pub proof fn lemma_last_index_finds(s: Seq<char>, c: char, i: int)
    requires
        0 <= i < s.len(),
        s[i] == c,
    ensures
        last_index_of(s, c) >= i,
    decreases s.len(),
{
    if s.last() != c {
        lemma_last_index_finds(s.drop_last(), c, i);
    }
}

/// Name of the sibling directory for the try number `attempt`.
pub open spec fn premount_name(attempt: nat) -> Seq<char> {
    ".mount_"@ + decimal(attempt)
}

/// The path of `name` in the directory `parent`.
pub open spec fn join_of(parent: Seq<char>, name: Seq<char>) -> Seq<char> {
    if parent.len() > 0 && parent.last() == '/' {
        parent + name
    } else {
        parent + "/"@ + name
    }
}

/// Name of the sibling directory for the try number `attempt`.
pub fn premount(attempt: usize) -> (r: String)
    ensures
        r@ == premount_name(attempt as nat),
{
    let mut name = String::from_str(".mount_");
    name.append(decimal_text(attempt).as_str());
    name
}

/// The path of `name` in the directory `parent`.
pub fn join(parent: &str, name: &str) -> (r: String)
    ensures
        r@ == join_of(parent@, name@),
{
    let chars = chars_of(parent);
    let mut path = String::from_str(parent);
    if !(chars.len() > 0 && chars[chars.len() - 1] == '/') {
        path.append("/");
    }
    path.append(name);
    path
}

/// What mounting is waiting for.
#[derive(Clone, Copy, Debug, PartialEq, Eq, Structural)]
pub enum RenamePhase {
    /// For the sibling directory to be made.
    MakingDir,
    /// For the filesystem to be mounted on the sibling directory.
    Mounting,
    /// For the sibling directory to be renamed onto the mount point.
    Renaming,
    /// For a piece of cleanup.
    RollingBack,
    /// For nothing: mounting is over.
    Finished,
}

/// Mounting in progress.
pub struct RenameMount {
    pub phase: RenamePhase,
    /// Number of the sibling directory that is tried.
    pub attempt: usize,
    /// Set aside when the sibling directory is made: its removal.
    pub cleanup_dir: Deferred<FsRequest>,
    /// Set aside when the filesystem is mounted: letting go of it.
    pub cleanup_mount: Deferred<FsRequest>,
    /// How mounting ends once the cleanup is through.
    pub result: Result<(), Error>,
}

/// The content of a `RenameMount`.
pub struct RenameMountView {
    pub phase: RenamePhase,
    pub attempt: usize,
    pub cleanup_dir: Option<FsRequestView>,
    pub cleanup_mount: Option<FsRequestView>,
    pub result: Result<(), Error>,
}

/// The content of what is set aside.
pub open spec fn pending_view(guard: Deferred<FsRequest>) -> Option<FsRequestView> {
    match guard.pending() {
        Some(request) => Some(request@),
        None => None,
    }
}

impl View for RenameMount {
    type V = RenameMountView;

    open spec fn view(&self) -> RenameMountView {
        RenameMountView {
            phase: self.phase,
            attempt: self.attempt,
            cleanup_dir: pending_view(self.cleanup_dir),
            cleanup_mount: pending_view(self.cleanup_mount),
            result: self.result,
        }
    }
}

/// The request for the sibling directory of the try `attempt`.
pub open spec fn make_dir_of(target: MountTargetView, attempt: nat) -> FsRequestView {
    FsRequestView::MakeDir { parent: target.parent, name: premount_name(attempt) }
}

/// The end of mounting.
pub open spec fn rename_finish(m: RenameMountView, result: Result<(), Error>) -> (
    RenameMountView,
    FsRequestView,
) {
    (RenameMountView { phase: RenamePhase::Finished, result, ..m }, FsRequestView::Finish { result })
}

/// Carries out what is set aside, the latest first; when nothing is left,
/// mounting ends with the result that was kept.
pub open spec fn rename_unwind(m: RenameMountView) -> (RenameMountView, FsRequestView) {
    match m.cleanup_mount {
        Some(request) => (
            RenameMountView { phase: RenamePhase::RollingBack, cleanup_mount: None, ..m },
            request,
        ),
        None => match m.cleanup_dir {
            Some(request) => (
                RenameMountView { phase: RenamePhase::RollingBack, cleanup_dir: None, ..m },
                request,
            ),
            None => rename_finish(m, m.result),
        },
    }
}

/// How mounting begins: with the first sibling directory.
pub open spec fn rename_first(target: MountTargetView) -> (RenameMountView, FsRequestView) {
    (
        RenameMountView {
            phase: RenamePhase::MakingDir,
            attempt: 0,
            cleanup_dir: None,
            cleanup_mount: None,
            result: Ok(()),
        },
        make_dir_of(target, 0),
    )
}

/// The rule of mounting: the state and the request that follow `reply`.
///
/// A sibling name that is taken is passed over for the next. Once the
/// directory is made its removal is set aside, and once the filesystem is
/// mounted on it letting go of it is set aside. If the rename succeeds both
/// are called off. If the mount point is there already, another run has
/// mounted it: what was set aside is carried out and mounting has succeeded
/// all the same. After any other failure what was set aside is carried out
/// and mounting has failed. How the cleanup itself fares changes nothing.
pub open spec fn rename_next(target: MountTargetView, m: RenameMountView, reply: FsReply) -> (
    RenameMountView,
    FsRequestView,
) {
    match m.phase {
        RenamePhase::MakingDir => match reply {
            FsReply::Done => (
                RenameMountView {
                    phase: RenamePhase::Mounting,
                    cleanup_dir: Some(
                        FsRequestView::RemoveDir {
                            parent: target.parent,
                            name: premount_name(m.attempt as nat),
                        },
                    ),
                    ..m
                },
                FsRequestView::Mount {
                    source: target.source,
                    target: join_of(target.parent, premount_name(m.attempt as nat)),
                },
            ),
            FsReply::Exists => if m.attempt == usize::MAX {
                rename_finish(m, Err(Error::Config))
            } else {
                (
                    RenameMountView { attempt: (m.attempt + 1) as usize, ..m },
                    make_dir_of(target, (m.attempt + 1) as nat),
                )
            },
            FsReply::Failed => rename_finish(m, Err(Error::ToolInvocation)),
        },
        RenamePhase::Mounting => match reply {
            FsReply::Done => (
                RenameMountView {
                    phase: RenamePhase::Renaming,
                    cleanup_mount: Some(
                        FsRequestView::Unmount {
                            target: join_of(target.parent, premount_name(m.attempt as nat)),
                        },
                    ),
                    ..m
                },
                FsRequestView::Rename {
                    parent: target.parent,
                    from: premount_name(m.attempt as nat),
                    to: target.name,
                },
            ),
            _ => rename_unwind(RenameMountView { result: Err(Error::ToolInvocation), ..m }),
        },
        RenamePhase::Renaming => match reply {
            FsReply::Done => rename_finish(
                RenameMountView { cleanup_dir: None, cleanup_mount: None, ..m },
                Ok(()),
            ),
            FsReply::Exists => rename_unwind(RenameMountView { result: Ok(()), ..m }),
            FsReply::Failed => rename_unwind(
                RenameMountView { result: Err(Error::ToolInvocation), ..m },
            ),
        },
        RenamePhase::RollingBack => rename_unwind(m),
        RenamePhase::Finished => rename_finish(m, m.result),
    }
}

fn finish(machine: RenameMount, result: Result<(), Error>) -> (r: (RenameMount, FsRequest))
    ensures
        (r.0@, r.1@) == rename_finish(machine@, result),
{
    let RenameMount { phase: _, attempt, cleanup_dir, cleanup_mount, result: _ } = machine;
    (
        RenameMount { phase: RenamePhase::Finished, attempt, cleanup_dir, cleanup_mount, result },
        FsRequest::Finish { result },
    )
}

fn unwind(machine: RenameMount) -> (r: (RenameMount, FsRequest))
    ensures
        (r.0@, r.1@) == rename_unwind(machine@),
{
    let RenameMount { phase, attempt, cleanup_dir, cleanup_mount, result } = machine;
    match cleanup_mount.fire() {
        Some(request) => (
            RenameMount {
                phase: RenamePhase::RollingBack,
                attempt,
                cleanup_dir,
                cleanup_mount: Deferred(None),
                result,
            },
            request,
        ),
        None => match cleanup_dir.fire() {
            Some(request) => (
                RenameMount {
                    phase: RenamePhase::RollingBack,
                    attempt,
                    cleanup_dir: Deferred(None),
                    cleanup_mount: Deferred(None),
                    result,
                },
                request,
            ),
            None => finish(
                RenameMount {
                    phase,
                    attempt,
                    cleanup_dir: Deferred(None),
                    cleanup_mount: Deferred(None),
                    result,
                },
                result,
            ),
        },
    }
}

/// Begins mounting at `target`.
pub fn rename_mount_start(target: &MountTarget) -> (r: (RenameMount, FsRequest))
    ensures
        (r.0@, r.1@) == rename_first(target@),
{
    (
        RenameMount {
            phase: RenamePhase::MakingDir,
            attempt: 0,
            cleanup_dir: Deferred(None),
            cleanup_mount: Deferred(None),
            result: Ok(()),
        },
        FsRequest::MakeDir { parent: target.parent.clone(), name: premount(0) },
    )
}

/// Takes the reply to the last request and says how mounting goes on.
pub fn rename_mount_step(target: &MountTarget, machine: RenameMount, reply: FsReply) -> (r: (
    RenameMount,
    FsRequest,
))
    ensures
        (r.0@, r.1@) == rename_next(target@, machine@, reply),
{
    match machine.phase {
        RenamePhase::MakingDir => match reply {
            FsReply::Done => {
                let RenameMount { phase: _, attempt, cleanup_dir: _, cleanup_mount, result } =
                    machine;
                let name = premount(attempt);
                let cleanup_dir = defer(
                    FsRequest::RemoveDir { parent: target.parent.clone(), name: name.clone() },
                );
                (
                    RenameMount {
                        phase: RenamePhase::Mounting,
                        attempt,
                        cleanup_dir,
                        cleanup_mount,
                        result,
                    },
                    FsRequest::Mount {
                        source: target.source.clone(),
                        target: join(target.parent.as_str(), name.as_str()),
                    },
                )
            },
            FsReply::Exists => if machine.attempt == usize::MAX {
                finish(machine, Err(Error::Config))
            } else {
                let RenameMount { phase, attempt, cleanup_dir, cleanup_mount, result } = machine;
                (
                    RenameMount { phase, attempt: attempt + 1, cleanup_dir, cleanup_mount, result },
                    FsRequest::MakeDir {
                        parent: target.parent.clone(),
                        name: premount(attempt + 1),
                    },
                )
            },
            FsReply::Failed => finish(machine, Err(Error::ToolInvocation)),
        },
        RenamePhase::Mounting => match reply {
            FsReply::Done => {
                let RenameMount { phase: _, attempt, cleanup_dir, cleanup_mount: _, result } =
                    machine;
                let name = premount(attempt);
                let cleanup_mount = defer(
                    FsRequest::Unmount { target: join(target.parent.as_str(), name.as_str()) },
                );
                (
                    RenameMount {
                        phase: RenamePhase::Renaming,
                        attempt,
                        cleanup_dir,
                        cleanup_mount,
                        result,
                    },
                    FsRequest::Rename {
                        parent: target.parent.clone(),
                        from: name,
                        to: target.name.clone(),
                    },
                )
            },
            _ => {
                let RenameMount { phase, attempt, cleanup_dir, cleanup_mount, result: _ } =
                    machine;
                unwind(
                    RenameMount {
                        phase,
                        attempt,
                        cleanup_dir,
                        cleanup_mount,
                        result: Err(Error::ToolInvocation),
                    },
                )
            },
        },
        RenamePhase::Renaming => {
            let RenameMount { phase, attempt, cleanup_dir, cleanup_mount, result: _ } = machine;
            match reply {
                FsReply::Done => {
                    let mut cleanup_dir = cleanup_dir;
                    let mut cleanup_mount = cleanup_mount;
                    cleanup_mount.cancel();
                    cleanup_dir.cancel();
                    finish(
                        RenameMount { phase, attempt, cleanup_dir, cleanup_mount, result: Ok(()) },
                        Ok(()),
                    )
                },
                FsReply::Exists => unwind(
                    RenameMount { phase, attempt, cleanup_dir, cleanup_mount, result: Ok(()) },
                ),
                FsReply::Failed => unwind(
                    RenameMount {
                        phase,
                        attempt,
                        cleanup_dir,
                        cleanup_mount,
                        result: Err(Error::ToolInvocation),
                    },
                ),
            }
        },
        RenamePhase::RollingBack => unwind(machine),
        RenamePhase::Finished => {
            let result = machine.result;
            finish(machine, result)
        },
    }
}

/// What is set aside, and in which order: the removal of a directory and
/// letting go of a mount, the second only while the first is pending, and
/// nothing before the directory is made or after mounting is over.
pub open spec fn rename_wf(m: RenameMountView) -> bool {
    &&& m.cleanup_dir is Some ==> m.cleanup_dir->0 is RemoveDir
    &&& m.cleanup_mount is Some ==> m.cleanup_mount->0 is Unmount
    &&& m.cleanup_mount is Some ==> m.cleanup_dir is Some
    &&& m.phase == RenamePhase::MakingDir ==> m.cleanup_dir is None
    &&& m.phase == RenamePhase::Mounting ==> m.cleanup_dir is Some && m.cleanup_mount is None
    &&& m.phase == RenamePhase::Renaming ==> m.cleanup_mount is Some
    &&& m.phase == RenamePhase::Finished ==> m.cleanup_dir is None
}

/// Nothing that mounting made is left behind. Every step keeps the order of
/// what is set aside; mounting ends only when nothing is set aside; and what
/// was set aside goes away in two ways only: it is the request that is handed
/// out, or the rename has succeeded and the thing is to stay.
pub proof fn lemma_rename_leaves_nothing(
    target: MountTargetView,
    m: RenameMountView,
    reply: FsReply,
)
    requires
        rename_wf(m),
    ensures
        rename_wf(rename_next(target, m, reply).0),
        rename_next(target, m, reply).1 is Finish ==> rename_next(target, m, reply).0.cleanup_dir
            is None && rename_next(target, m, reply).0.cleanup_mount is None,
        m.cleanup_dir is Some && rename_next(target, m, reply).0.cleanup_dir is None ==> Some(
            rename_next(target, m, reply).1,
        ) == m.cleanup_dir || (m.phase == RenamePhase::Renaming && reply == FsReply::Done),
        m.cleanup_mount is Some && rename_next(target, m, reply).0.cleanup_mount is None ==> Some(
            rename_next(target, m, reply).1,
        ) == m.cleanup_mount || (m.phase == RenamePhase::Renaming && reply == FsReply::Done),
        rename_wf(rename_first(target).0),
{
}

/// Mounting reports success in two cases only: the rename succeeded, or the
/// mount point was there already.
pub proof fn lemma_rename_success(target: MountTargetView, m: RenameMountView, reply: FsReply)
    requires
        rename_wf(m),
        m.phase != RenamePhase::Finished,
        m.phase != RenamePhase::RollingBack,
        rename_next(target, m, reply).0.result is Ok,
        rename_next(target, m, reply).0.phase == RenamePhase::Finished
            || rename_next(target, m, reply).0.phase == RenamePhase::RollingBack,
    ensures
        m.phase == RenamePhase::Renaming && (reply == FsReply::Done || reply == FsReply::Exists),
{
}

} // verus!
