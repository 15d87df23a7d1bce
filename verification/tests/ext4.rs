use volumesetup::blockdev::BlockDevice;
use volumesetup::command::{Command, Exit};
use volumesetup::config::{EncryptionKind, INNER_UUID, OUTER_UUID};
use volumesetup::error::Error;
use volumesetup::ext4::{
    by_uuid, ext4_start, ext4_step, find_existing, luks_format_command, luks_open_command,
    luks_uuid_command, mkfs_command, Ext4Context, Ext4Phase, DECRYPTED_PATH, MAPPER_PATH,
    RETRIES, RETRY_SECONDS,
};
use volumesetup::step::{Reply, Request};

fn disk(path: &str, size: i64, uuid: Option<&str>) -> BlockDevice {
    BlockDevice {
        path: path.to_string(),
        size,
        subsystems: "block:scsi:pci".to_string(),
        mountpoints: vec![None],
        type_: "disk".to_string(),
        uuid: uuid.map(|u| u.to_string()),
        rota: Some(true),
        children: vec![],
    }
}

fn ctx(encryption: EncryptionKind, extra: Option<&str>) -> Ext4Context {
    Ext4Context {
        outer_uuid: OUTER_UUID.to_string(),
        encryption,
        extra: extra.map(|e| e.to_string()),
    }
}

fn ok() -> Reply {
    Reply::Ran { exit: Exit::Success { stdout: vec![] } }
}

/// Plays the caller: paths appear when the script says so, and every request
/// is written down.
struct World {
    present: Vec<String>,
    appear_after_probes: Vec<(String, usize)>,
    probes: Vec<String>,
    log: Vec<String>,
    key: String,
}

impl World {
    fn new() -> World {
        World {
            present: vec![],
            appear_after_probes: vec![],
            probes: vec![],
            log: vec![],
            key: "s3cret".to_string(),
        }
    }

    fn perform(&mut self, request: &Request) -> Reply {
        match request {
            Request::Run { command } => {
                let mut line = command.program.clone();
                for a in &command.args {
                    line.push(' ');
                    line.push_str(a);
                }
                if let Some(input) = &command.stdin {
                    line.push_str(" < ");
                    line.push_str(input);
                }
                self.log.push(line);
                ok()
            }
            Request::Probe { path } => {
                self.probes.push(path.clone());
                let seen = self.probes.iter().filter(|p| *p == path).count();
                let appears = self
                    .appear_after_probes
                    .iter()
                    .any(|(p, after)| p == path && seen > *after);
                Reply::Exists { found: self.present.contains(path) || appears }
            }
            Request::Pause { seconds } => {
                assert_eq!(*seconds, 1);
                Reply::Resumed
            }
            Request::AcquireKey { confirm } => {
                self.log.push(format!("key confirm={}", confirm));
                Reply::Key { key: self.key.clone() }
            }
            Request::EnsureMounted { device } => {
                self.log.push(format!("mount {}", device));
                Reply::Mounted
            }
            Request::DecryptExtra { key, path } => {
                self.log.push(format!("decrypt {} with {}", path, key));
                Reply::Stored
            }
            Request::ReadSlots { .. } => panic!("not a pool"),
            Request::Finish { .. } => panic!("nothing to perform"),
        }
    }

    fn run(&mut self, ctx: &Ext4Context, blocks: Vec<BlockDevice>) -> Result<(), Error> {
        let (mut machine, mut request) = ext4_start(ctx, blocks);
        for _ in 0..1000 {
            if let Request::Finish { result } = request {
                assert_eq!(machine.phase, Ext4Phase::Finished);
                return result;
            }
            assert!(machine.tries <= RETRIES);
            let reply = self.perform(&request);
            let next = ext4_step(ctx, machine, reply);
            machine = next.0;
            request = next.1;
        }
        panic!("the run did not end");
    }
}

#[test]
fn ext4_commands_are_spelled_out() {
    assert_eq!(by_uuid("abc"), "/dev/disk/by-uuid/abc");
    assert_eq!(MAPPER_PATH, "/dev/mapper/persistent");
    assert_eq!(RETRIES, 30);
    assert_eq!(RETRY_SECONDS, 1);
    assert_eq!(DECRYPTED_PATH, "/run/volumesetup_decrypted");
    assert_eq!(
        mkfs_command("/dev/sda", "u-1"),
        Command {
            program: "mkfs.ext4".to_string(),
            args: vec!["-F".to_string(), "/dev/sda".to_string(), "-U".to_string(), "u-1".to_string()],
            stdin: None
        }
    );
    assert_eq!(
        luks_format_command("/dev/sda", Some("k".to_string())),
        Command {
            program: "cryptsetup".to_string(),
            args: vec![
                "luksFormat".to_string(),
                "--type=luks2".to_string(),
                "--key-file=-".to_string(),
                "/dev/sda".to_string()
            ],
            stdin: Some("k".to_string())
        }
    );
    assert_eq!(
        luks_uuid_command("/dev/sda", "u-1"),
        Command {
            program: "cryptsetup".to_string(),
            args: vec![
                "luksUUID".to_string(),
                "--uuid".to_string(),
                "u-1".to_string(),
                "/dev/sda".to_string()
            ],
            stdin: None
        }
    );
    assert_eq!(
        luks_open_command("u-1", Some("k".to_string())),
        Command {
            program: "cryptsetup".to_string(),
            args: vec![
                "open".to_string(),
                "--key-file=-".to_string(),
                "/dev/disk/by-uuid/u-1".to_string(),
                "persistent".to_string()
            ],
            stdin: Some("k".to_string())
        }
    );
}

#[test]
fn find_existing_takes_the_first_device_with_the_uuid() {
    let blocks = vec![
        disk("/dev/sda", 1, None),
        disk("/dev/sdb", 1, Some("other")),
        disk("/dev/sdc", 1, Some("wanted")),
        disk("/dev/sdd", 1, Some("wanted")),
    ];
    assert_eq!(find_existing(&blocks, "wanted"), Some("/dev/sdc".to_string()));
    assert_eq!(find_existing(&blocks, "absent"), None);
    assert_eq!(find_existing(&vec![], "wanted"), None);
}

#[test]
fn fresh_disk_without_encryption_is_formatted_and_mounted() {
    let mut world = World::new();
    world.appear_after_probes.push((by_uuid(OUTER_UUID), 2));
    let mut usb = disk("/dev/sdu", 500_000_000_000, None);
    usb.subsystems = "block:scsi:usb".to_string();
    let blocks = vec![usb, disk("/dev/sda", 100_000_000_000, None)];
    let result = world.run(&ctx(EncryptionKind::Unencrypted, None), blocks);
    assert_eq!(result, Ok(()));
    assert_eq!(
        world.log,
        vec![
            format!("mkfs.ext4 -F /dev/sda -U {}", OUTER_UUID),
            format!("mount /dev/disk/by-uuid/{}", OUTER_UUID),
        ]
    );
    assert_eq!(world.probes.len(), 3);
    assert!(world.log.iter().all(|l| !l.starts_with("cryptsetup") && !l.starts_with("key")));
}

#[test]
fn existing_volume_without_encryption_is_just_mounted() {
    let mut world = World::new();
    let blocks = vec![disk("/dev/sda", 100, None), disk("/dev/sdb", 50, Some(OUTER_UUID))];
    assert_eq!(world.run(&ctx(EncryptionKind::Unencrypted, None), blocks), Ok(()));
    assert_eq!(world.log, vec!["mount /dev/sdb".to_string()]);
    assert!(world.probes.is_empty());
}

#[test]
fn without_any_unused_disk_the_run_fails() {
    let mut world = World::new();
    let mut mounted = disk("/dev/sda", 100, None);
    mounted.mountpoints = vec![Some("/".to_string())];
    assert_eq!(world.run(&ctx(EncryptionKind::Unencrypted, None), vec![mounted]), Err(Error::Config));
    assert_eq!(world.run(&ctx(EncryptionKind::DirectKey, None), vec![]), Err(Error::Config));
    assert!(world.log.is_empty());
}

#[test]
fn interrupted_encrypted_setup_is_taken_up_again() {
    let mut world = World::new();
    world.appear_after_probes.push((by_uuid(INNER_UUID), 30));
    let blocks = vec![disk("/dev/sda", 100, Some(OUTER_UUID)), disk("/dev/sdb", 900, None)];
    let result = world.run(&ctx(EncryptionKind::DirectKey, None), blocks);
    assert_eq!(result, Ok(()));
    assert_eq!(
        world.log,
        vec![
            "key confirm=false".to_string(),
            format!("cryptsetup open --key-file=- /dev/disk/by-uuid/{} persistent < s3cret", OUTER_UUID),
            format!("mkfs.ext4 -F /dev/mapper/persistent -U {}", INNER_UUID),
            format!("mount /dev/disk/by-uuid/{}", INNER_UUID),
        ]
    );
    let inner_probes = world.probes.iter().filter(|p| **p == by_uuid(INNER_UUID)).count();
    assert_eq!(inner_probes, 31);
    assert_eq!(world.probes[0], MAPPER_PATH);
}

#[test]
fn existing_encrypted_volume_is_unlocked_and_mounted() {
    let mut world = World::new();
    world.present.push(by_uuid(INNER_UUID));
    let blocks = vec![disk("/dev/sda", 100, Some(OUTER_UUID))];
    assert_eq!(world.run(&ctx(EncryptionKind::DirectKey, None), blocks), Ok(()));
    assert_eq!(
        world.log,
        vec![
            "key confirm=false".to_string(),
            format!("cryptsetup open --key-file=- /dev/disk/by-uuid/{} persistent < s3cret", OUTER_UUID),
            format!("mount /dev/disk/by-uuid/{}", INNER_UUID),
        ]
    );
}

#[test]
fn mapped_container_is_not_unlocked_again() {
    let mut world = World::new();
    world.present.push(MAPPER_PATH.to_string());
    world.present.push(by_uuid(INNER_UUID));
    let blocks = vec![disk("/dev/sda", 100, Some(OUTER_UUID))];
    assert_eq!(world.run(&ctx(EncryptionKind::IndirectKey, Some("/etc/extra.gpg")), blocks), Ok(()));
    assert_eq!(
        world.log,
        vec![
            "key confirm=false".to_string(),
            format!("mount /dev/disk/by-uuid/{}", INNER_UUID),
            "decrypt /etc/extra.gpg with s3cret".to_string(),
        ]
    );
}

#[test]
fn fresh_encrypted_volume_is_set_up_in_order() {
    let mut world = World::new();
    world.appear_after_probes.push((by_uuid(OUTER_UUID), 1));
    world.appear_after_probes.push((by_uuid(INNER_UUID), 0));
    let blocks = vec![disk("/dev/sda", 100, None), disk("/dev/sdb", 200, None)];
    assert_eq!(world.run(&ctx(EncryptionKind::DirectKey, None), blocks), Ok(()));
    assert_eq!(
        world.log,
        vec![
            "key confirm=true".to_string(),
            "cryptsetup luksFormat --type=luks2 --key-file=- /dev/sdb < s3cret".to_string(),
            format!("cryptsetup luksUUID --uuid {} /dev/sdb", OUTER_UUID),
            format!("cryptsetup open --key-file=- /dev/disk/by-uuid/{} persistent < s3cret", OUTER_UUID),
            format!("mkfs.ext4 -F /dev/mapper/persistent -U {}", INNER_UUID),
            format!("mount /dev/disk/by-uuid/{}", INNER_UUID),
        ]
    );
}

#[test]
fn a_device_that_never_appears_is_given_up_after_thirty_looks() {
    let mut world = World::new();
    let blocks = vec![disk("/dev/sda", 100, None)];
    assert_eq!(world.run(&ctx(EncryptionKind::Unencrypted, None), blocks), Err(Error::Timeout));
    assert_eq!(world.probes.len(), 30);
    let mut world = World::new();
    let blocks = vec![disk("/dev/sda", 100, None)];
    assert_eq!(world.run(&ctx(EncryptionKind::DirectKey, None), blocks), Err(Error::Timeout));
    assert_eq!(world.probes.len(), 30);
    assert_eq!(world.log.len(), 3);
}

#[test]
fn a_failed_command_ends_the_run() {
    let c = ctx(EncryptionKind::Unencrypted, None);
    let (machine, request) = ext4_start(&c, vec![disk("/dev/sda", 100, None)]);
    assert!(matches!(request, Request::Run { .. }));
    let (machine, request) =
        ext4_step(&c, machine, Reply::Ran { exit: Exit::Failed { code: Some(1) } });
    assert_eq!(request, Request::Finish { result: Err(Error::ToolInvocation) });
    let (_, request) = ext4_step(&c, machine, ok());
    assert_eq!(request, Request::Finish { result: Err(Error::Schema) });
    let c = ctx(EncryptionKind::DirectKey, None);
    let (machine, _) = ext4_start(&c, vec![disk("/dev/sda", 100, None)]);
    let (_, request) = ext4_step(&c, machine, Reply::Failed { error: Error::KeyFile });
    assert_eq!(request, Request::Finish { result: Err(Error::KeyFile) });
    let (machine, _) = ext4_start(&c, vec![disk("/dev/sda", 100, Some(OUTER_UUID))]);
    let (_, request) = ext4_step(&c, machine, Reply::Failed { error: Error::Decryption });
    assert_eq!(request, Request::Finish { result: Err(Error::Decryption) });
}

#[test]
fn a_failed_mount_or_decryption_ends_the_run() {
    let c = ctx(EncryptionKind::Unencrypted, None);
    let (machine, _) = ext4_start(&c, vec![disk("/dev/sda", 100, Some(OUTER_UUID))]);
    let (_, request) = ext4_step(&c, machine, Reply::Failed { error: Error::ToolInvocation });
    assert_eq!(request, Request::Finish { result: Err(Error::ToolInvocation) });
}
