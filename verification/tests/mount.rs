use volumesetup::error::Error;
use volumesetup::guard::defer;
use volumesetup::mount::{
    join, mount_target, premount, rename_mount_start, rename_mount_step, FsReply, FsRequest,
    MountTarget, RenamePhase,
};

/// A directory tree and a mount table, just enough to play the caller.
struct World {
    dirs: Vec<String>,
    mounts: Vec<String>,
    mount_calls: usize,
    fail_mount: bool,
    fail_rename: bool,
}

impl World {
    fn new() -> World {
        World {
            dirs: vec![],
            mounts: vec![],
            mount_calls: 0,
            fail_mount: false,
            fail_rename: false,
        }
    }

    fn perform(&mut self, request: &FsRequest) -> FsReply {
        match request {
            FsRequest::MakeDir { parent, name } => {
                let path = join(parent, name);
                if self.dirs.contains(&path) {
                    FsReply::Exists
                } else {
                    self.dirs.push(path);
                    FsReply::Done
                }
            }
            FsRequest::Mount { source: _, target } => {
                if self.fail_mount {
                    return FsReply::Failed;
                }
                self.mount_calls += 1;
                self.mounts.push(target.clone());
                FsReply::Done
            }
            FsRequest::Rename { parent, from, to } => {
                let from = join(parent, from);
                let to = join(parent, to);
                if self.fail_rename {
                    FsReply::Failed
                } else if self.dirs.contains(&to) {
                    FsReply::Exists
                } else {
                    for d in self.dirs.iter_mut() {
                        if *d == from {
                            *d = to.clone();
                        }
                    }
                    for m in self.mounts.iter_mut() {
                        if *m == from {
                            *m = to.clone();
                        }
                    }
                    FsReply::Done
                }
            }
            FsRequest::Unmount { target } => {
                self.mounts.retain(|m| m != target);
                FsReply::Done
            }
            FsRequest::RemoveDir { parent, name } => {
                let path = join(parent, name);
                self.dirs.retain(|d| *d != path);
                FsReply::Done
            }
            FsRequest::Finish { .. } => panic!("nothing to perform"),
        }
    }

    fn ensure_mounted(&mut self, target: &MountTarget) -> Result<(), Error> {
        let (mut machine, mut request) = rename_mount_start(target);
        for _ in 0..1000 {
            if let FsRequest::Finish { result } = request {
                assert_eq!(machine.phase, RenamePhase::Finished);
                return result;
            }
            let reply = self.perform(&request);
            let next = rename_mount_step(target, machine, reply);
            machine = next.0;
            request = next.1;
        }
        panic!("mounting did not end");
    }
}

fn target() -> MountTarget {
    mount_target("/mnt/persistent", "/dev/disk/by-uuid/3d02cfd4").unwrap()
}

#[test]
fn mount_target_splits_the_mount_point() {
    assert_eq!(
        target(),
        MountTarget {
            parent: "/mnt".to_string(),
            name: "persistent".to_string(),
            source: "/dev/disk/by-uuid/3d02cfd4".to_string(),
        }
    );
    let top = mount_target("/data", "u").unwrap();
    assert_eq!(top.parent, "/");
    assert_eq!(top.name, "data");
    let slashed = mount_target("/mnt/persistent//", "u").unwrap();
    assert_eq!(slashed.parent, "/mnt");
    assert_eq!(slashed.name, "persistent");
}

#[test]
fn mount_target_refuses_paths_without_parent_or_name() {
    assert_eq!(mount_target("/", "u"), Err(Error::Config));
    assert_eq!(mount_target("", "u"), Err(Error::Config));
    assert_eq!(mount_target("relative/path", "u"), Err(Error::Config));
    assert_eq!(mount_target("persistent", "u"), Err(Error::Config));
    assert_eq!(mount_target("/mnt/..", "u"), Err(Error::Config));
    assert_eq!(mount_target("/mnt/.", "u"), Err(Error::Config));
    assert_eq!(mount_target("//", "u"), Err(Error::Config));
}

#[test]
fn premount_names_and_joined_paths() {
    assert_eq!(premount(0), ".mount_0");
    assert_eq!(premount(41), ".mount_41");
    assert_eq!(join("/mnt", ".mount_0"), "/mnt/.mount_0");
    assert_eq!(join("/", "data"), "/data");
    assert_eq!(join("", "x"), "/x");
}

#[test]
fn first_boot_mounts_through_a_sibling_directory() {
    let target = target();
    let (machine, request) = rename_mount_start(&target);
    assert_eq!(
        request,
        FsRequest::MakeDir { parent: "/mnt".to_string(), name: ".mount_0".to_string() }
    );
    let (machine, request) = rename_mount_step(&target, machine, FsReply::Done);
    assert_eq!(
        request,
        FsRequest::Mount {
            source: "/dev/disk/by-uuid/3d02cfd4".to_string(),
            target: "/mnt/.mount_0".to_string()
        }
    );
    let (machine, request) = rename_mount_step(&target, machine, FsReply::Done);
    assert_eq!(
        request,
        FsRequest::Rename {
            parent: "/mnt".to_string(),
            from: ".mount_0".to_string(),
            to: "persistent".to_string()
        }
    );
    let (machine, request) = rename_mount_step(&target, machine, FsReply::Done);
    assert_eq!(request, FsRequest::Finish { result: Ok(()) });
    assert!(!machine.cleanup_dir.is_armed());
    assert!(!machine.cleanup_mount.is_armed());
}

#[test]
fn two_boots_mount_once_and_leave_no_sibling_directory() {
    let target = target();
    let mut world = World::new();
    assert_eq!(world.ensure_mounted(&target), Ok(()));
    assert_eq!(world.dirs, vec!["/mnt/persistent".to_string()]);
    assert_eq!(world.mounts, vec!["/mnt/persistent".to_string()]);
    assert_eq!(world.ensure_mounted(&target), Ok(()));
    assert_eq!(world.dirs, vec!["/mnt/persistent".to_string()]);
    assert_eq!(world.mounts, vec!["/mnt/persistent".to_string()]);
    assert_eq!(world.mount_calls, 2);
}

#[test]
fn lost_race_rolls_back_and_still_succeeds() {
    let target = target();
    let (machine, _) = rename_mount_start(&target);
    let (machine, _) = rename_mount_step(&target, machine, FsReply::Done);
    let (machine, _) = rename_mount_step(&target, machine, FsReply::Done);
    let (machine, request) = rename_mount_step(&target, machine, FsReply::Exists);
    assert_eq!(request, FsRequest::Unmount { target: "/mnt/.mount_0".to_string() });
    let (machine, request) = rename_mount_step(&target, machine, FsReply::Failed);
    assert_eq!(
        request,
        FsRequest::RemoveDir { parent: "/mnt".to_string(), name: ".mount_0".to_string() }
    );
    let (machine, request) = rename_mount_step(&target, machine, FsReply::Done);
    assert_eq!(request, FsRequest::Finish { result: Ok(()) });
    assert_eq!(machine.phase, RenamePhase::Finished);
    assert!(!machine.cleanup_dir.is_armed());
    assert!(!machine.cleanup_mount.is_armed());
}

#[test]
fn taken_sibling_names_are_passed_over() {
    let target = target();
    let mut world = World::new();
    world.dirs.push("/mnt/.mount_0".to_string());
    world.dirs.push("/mnt/.mount_1".to_string());
    assert_eq!(world.ensure_mounted(&target), Ok(()));
    assert_eq!(
        world.dirs,
        vec![
            "/mnt/.mount_0".to_string(),
            "/mnt/.mount_1".to_string(),
            "/mnt/persistent".to_string()
        ]
    );
    assert_eq!(world.mounts, vec!["/mnt/persistent".to_string()]);
}

#[test]
fn failed_mount_removes_the_sibling_directory() {
    let target = target();
    let mut world = World::new();
    world.fail_mount = true;
    assert_eq!(world.ensure_mounted(&target), Err(Error::ToolInvocation));
    assert!(world.dirs.is_empty());
    assert!(world.mounts.is_empty());
}

#[test]
fn failed_rename_unmounts_and_removes_the_sibling_directory() {
    let target = target();
    let mut world = World::new();
    world.fail_rename = true;
    assert_eq!(world.ensure_mounted(&target), Err(Error::ToolInvocation));
    assert!(world.dirs.is_empty());
    assert!(world.mounts.is_empty());
    assert_eq!(world.mount_calls, 1);
}

#[test]
fn failed_directory_ends_mounting_at_once() {
    let target = target();
    let (machine, _) = rename_mount_start(&target);
    let (_, request) = rename_mount_step(&target, machine, FsReply::Failed);
    assert_eq!(request, FsRequest::Finish { result: Err(Error::ToolInvocation) });
}

#[test]
fn sibling_names_can_run_out() {
    let target = target();
    let (mut machine, _) = rename_mount_start(&target);
    machine.attempt = usize::MAX;
    let (_, request) = rename_mount_step(&target, machine, FsReply::Exists);
    assert_eq!(request, FsRequest::Finish { result: Err(Error::Config) });
}

#[test]
fn deferred_action_is_fired_unless_cancelled() {
    let guard = defer(7);
    assert!(guard.is_armed());
    assert_eq!(guard.fire(), Some(7));
    let mut guard = defer("cleanup".to_string());
    guard.cancel();
    assert!(!guard.is_armed());
    assert_eq!(guard.fire(), None);
}
