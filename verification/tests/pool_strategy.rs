use volumesetup::blockdev::BlockDevice;
use volumesetup::command::Exit;
use volumesetup::error::Error;
use volumesetup::pool::SlotEntry;
use volumesetup::pool_strategy::{pool_start, pool_step, PoolContext, PoolPhase};
use volumesetup::step::{Reply, Request};

fn disk(path: &str, size: i64, rota: Option<bool>) -> BlockDevice {
    BlockDevice {
        path: path.to_string(),
        size,
        subsystems: "block:scsi:pci".to_string(),
        mountpoints: vec![None],
        type_: "disk".to_string(),
        uuid: None,
        rota,
        children: vec![],
    }
}

fn ctx(encrypted: bool) -> PoolContext {
    PoolContext { uuid: "u-1".to_string(), mount_path: "/mnt/persistent".to_string(), encrypted }
}

fn slot(name: &str, block: Option<&str>) -> SlotEntry {
    SlotEntry { name: name.to_string(), block: block.map(|b| b.to_string()) }
}

struct World {
    pool_exists: bool,
    slots: Vec<(String, Option<String>)>,
    failing: Option<String>,
    log: Vec<String>,
}

impl World {
    fn perform(&mut self, request: &Request) -> Reply {
        match request {
            Request::Run { command } => {
                let mut line = command.program.clone();
                for a in &command.args {
                    line.push(' ');
                    line.push_str(a);
                }
                if let Some(input) = &command.stdin {
                    line.push_str(" < ");
                    line.push_str(input);
                }
                let probe = line.starts_with("bcachefs show-super");
                let fails = self.failing.as_ref().map(|f| line.starts_with(f.as_str())).unwrap_or(false);
                self.log.push(line);
                if fails || (probe && !self.pool_exists) {
                    Reply::Ran { exit: Exit::Failed { code: Some(1) } }
                } else {
                    Reply::Ran { exit: Exit::Success { stdout: vec![] } }
                }
            }
            Request::AcquireKey { confirm } => {
                self.log.push(format!("key confirm={}", confirm));
                Reply::Key { key: "k3y".to_string() }
            }
            Request::ReadSlots { uuid } => {
                self.log.push(format!("slots {}", uuid));
                Reply::Slots {
                    entries: self
                        .slots
                        .iter()
                        .map(|(n, b)| slot(n, b.as_deref()))
                        .collect(),
                }
            }
            _ => panic!("unexpected request {:?}", request),
        }
    }

    fn run(&mut self, ctx: &PoolContext, blocks: Vec<BlockDevice>) -> Result<(), Error> {
        let (mut machine, mut request) = pool_start(ctx, blocks);
        for _ in 0..1000 {
            if let Request::Finish { result } = request {
                assert_eq!(machine.phase, PoolPhase::Finished);
                return result;
            }
            let reply = self.perform(&request);
            let next = pool_step(ctx, machine, reply);
            machine = next.0;
            request = next.1;
        }
        panic!("the run did not end");
    }
}

#[test]
fn existing_pool_is_mounted_and_reconciled() {
    let mut world = World {
        pool_exists: true,
        slots: vec![
            ("dev-0".to_string(), Some("sda".to_string())),
            ("dev-1".to_string(), None),
            ("dev-2".to_string(), Some("sdc".to_string())),
        ],
        failing: None,
        log: vec![],
    };
    let blocks = vec![disk("/dev/sda", 100, None), disk("/dev/sdc", 100, None), disk("/dev/sdd", 100, None)];
    assert_eq!(world.run(&ctx(false), blocks), Ok(()));
    assert_eq!(
        world.log,
        vec![
            "bcachefs show-super /dev/disk/by-uuid/u-1".to_string(),
            "bcachefs mount -o degraded,fsck,fix_errors UUID=u-1 /mnt/persistent --key_location=fail".to_string(),
            "slots u-1".to_string(),
            "bcachefs device add --label hdd.d3 /mnt/persistent /dev/sdd".to_string(),
            "bcachefs device remove 1 /mnt/persistent".to_string(),
            "bcachefs data rereplicate /mnt/persistent".to_string(),
        ]
    );
}

#[test]
fn healthy_pool_is_only_mounted() {
    let mut world = World {
        pool_exists: true,
        slots: vec![("dev-0".to_string(), Some("sda".to_string()))],
        failing: None,
        log: vec![],
    };
    assert_eq!(world.run(&ctx(true), vec![disk("/dev/sda", 100, None)]), Ok(()));
    assert_eq!(
        world.log,
        vec![
            "bcachefs show-super /dev/disk/by-uuid/u-1".to_string(),
            "key confirm=true".to_string(),
            "bcachefs mount -o degraded,fsck,fix_errors UUID=u-1 /mnt/persistent --key_location=stdin < k3y".to_string(),
            "slots u-1".to_string(),
        ]
    );
}

#[test]
fn missing_pool_is_set_up_across_all_unused_disks() {
    let mut world = World { pool_exists: false, slots: vec![], failing: None, log: vec![] };
    let blocks = vec![disk("/dev/sda", 100, Some(true)), disk("/dev/nvme0n1", 50, Some(false))];
    assert_eq!(world.run(&ctx(true), blocks), Ok(()));
    assert_eq!(
        world.log,
        vec![
            "bcachefs show-super /dev/disk/by-uuid/u-1".to_string(),
            "key confirm=true".to_string(),
            "bcachefs format --uuid=u-1 --force --replicas=2 --metadata_replicas_required=2 --data_replicas_required=2 --compression=zstd --encrypted --label=hdd.d0 /dev/sda --label=ssd.d1 /dev/nvme0n1 --promote_target=ssd --foreground_target=ssd --background_target=hdd < k3y".to_string(),
            "bcachefs mount -o degraded,fsck,fix_errors UUID=u-1 /mnt/persistent --key_location=stdin < k3y".to_string(),
        ]
    );
}

#[test]
fn too_few_disks_for_a_new_pool_is_a_configuration_error() {
    let mut world = World { pool_exists: false, slots: vec![], failing: None, log: vec![] };
    assert_eq!(world.run(&ctx(false), vec![disk("/dev/sda", 100, None)]), Err(Error::Config));
    assert_eq!(
        world.log,
        vec![
            "bcachefs show-super /dev/disk/by-uuid/u-1".to_string(),
            "umount --lazy /mnt/persistent".to_string(),
        ]
    );
}

#[test]
fn any_failure_lets_go_of_the_mount_point_first() {
    for failing in ["bcachefs mount", "bcachefs device add", "bcachefs device remove", "bcachefs data"] {
        let mut world = World {
            pool_exists: true,
            slots: vec![("dev-0".to_string(), None)],
            failing: Some(failing.to_string()),
            log: vec![],
        };
        let result = world.run(&ctx(false), vec![disk("/dev/sdd", 100, None)]);
        assert_eq!(result, Err(Error::ToolInvocation), "failing {}", failing);
        assert_eq!(world.log.last().unwrap(), "umount --lazy /mnt/persistent");
        assert_eq!(world.log.iter().filter(|l| l.starts_with("umount")).count(), 1);
    }
    let mut world = World {
        pool_exists: false,
        slots: vec![],
        failing: Some("bcachefs format".to_string()),
        log: vec![],
    };
    let blocks = vec![disk("/dev/sda", 1, None), disk("/dev/sdb", 1, None)];
    assert_eq!(world.run(&ctx(false), blocks), Err(Error::ToolInvocation));
    assert_eq!(world.log.last().unwrap(), "umount --lazy /mnt/persistent");
}

#[test]
fn a_key_that_cannot_be_had_ends_the_run_after_cleanup() {
    let c = ctx(true);
    let (machine, _) = pool_start(&c, vec![]);
    let (machine, request) =
        pool_step(&c, machine, Reply::Ran { exit: Exit::Success { stdout: vec![] } });
    assert_eq!(request, Request::AcquireKey { confirm: true });
    let (machine, request) = pool_step(&c, machine, Reply::Failed { error: Error::KeyFile });
    assert!(matches!(request, Request::Run { .. }));
    assert_eq!(machine.phase, PoolPhase::Cleanup);
    let (machine, request) =
        pool_step(&c, machine, Reply::Ran { exit: Exit::Failed { code: None } });
    assert_eq!(request, Request::Finish { result: Err(Error::KeyFile) });
    let (_, request) = pool_step(&c, machine, Reply::Resumed);
    assert_eq!(request, Request::Finish { result: Err(Error::Schema) });
}
