use volumesetup::blockdev::BlockDevice;
use volumesetup::command::Command;
use volumesetup::error::Error;
use volumesetup::pool::{
    cleanup_command, file_name, format_plan, label, mount_command, probe_command,
    reconcile_plan, slot_index, survey, PoolSurvey, SlotEntry,
};

fn disk(path: &str, size: i64, rota: Option<bool>) -> BlockDevice {
    BlockDevice {
        path: path.to_string(),
        size,
        subsystems: "block:scsi:pci".to_string(),
        mountpoints: vec![None],
        type_: "disk".to_string(),
        uuid: None,
        rota,
        children: vec![],
    }
}

fn slot(name: &str, block: Option<&str>) -> SlotEntry {
    SlotEntry { name: name.to_string(), block: block.map(|b| b.to_string()) }
}

fn command(program: &str, args: &[&str], stdin: Option<&str>) -> Command {
    Command {
        program: program.to_string(),
        args: args.iter().map(|a| a.to_string()).collect(),
        stdin: stdin.map(|s| s.to_string()),
    }
}

#[test]
fn slot_index_reads_device_slots_only() {
    assert_eq!(slot_index("dev-0"), Some(0));
    assert_eq!(slot_index("dev-17"), Some(17));
    assert_eq!(slot_index("dev-"), None);
    assert_eq!(slot_index("dev-x"), None);
    assert_eq!(slot_index("options"), None);
    assert_eq!(slot_index("xdev-1"), None);
}

#[test]
fn survey_tells_members_from_missing_slots() {
    let found = survey(vec![
        slot("dev-0", Some("sda")),
        slot("internal", None),
        slot("dev-1", None),
        slot("dev-x", None),
        slot("dev-2", Some("sdc")),
    ]);
    assert_eq!(
        found,
        PoolSurvey {
            missing: vec![1],
            members: vec!["sda".to_string(), "sdc".to_string()],
            last_index: 2,
        }
    );
    assert_eq!(survey(vec![]), PoolSurvey { missing: vec![], members: vec![], last_index: 0 });
    let unordered = survey(vec![slot("dev-5", None), slot("dev-3", None)]);
    assert_eq!(unordered.missing, vec![5, 3]);
    assert_eq!(unordered.last_index, 5);
}

#[test]
fn file_name_is_the_last_part_of_a_path() {
    assert_eq!(file_name("/dev/sda"), "sda");
    assert_eq!(file_name("sda"), "sda");
    assert_eq!(file_name("/dev/mapper/x"), "x");
    assert_eq!(file_name("/dev/"), "");
    assert_eq!(file_name(""), "");
}

#[test]
fn labels_name_class_and_slot() {
    assert_eq!(label(Some(true), 0), "hdd.d0");
    assert_eq!(label(None, 12), "hdd.d12");
    assert_eq!(label(Some(false), 3), "ssd.d3");
}

#[test]
fn reconcile_adds_the_new_disk_removes_the_lost_slot_and_rereplicates() {
    let found = survey(vec![
        slot("dev-0", Some("sda")),
        slot("dev-1", None),
        slot("dev-2", Some("sdc")),
    ]);
    let blocks = vec![disk("/dev/sdd", 100, Some(false))];
    let plan = reconcile_plan(&found, blocks, "/mnt/persistent").unwrap();
    assert_eq!(
        plan,
        vec![
            command(
                "bcachefs",
                &["device", "add", "--label", "ssd.d3", "/mnt/persistent", "/dev/sdd"],
                None
            ),
            command("bcachefs", &["device", "remove", "1", "/mnt/persistent"], None),
            command("bcachefs", &["data", "rereplicate", "/mnt/persistent"], None),
        ]
    );
}

#[test]
fn reconcile_passes_over_members_and_numbers_new_disks_on() {
    let found = survey(vec![slot("dev-4", Some("sda")), slot("dev-1", Some("sdb"))]);
    let blocks = vec![
        disk("/dev/sda", 500, Some(true)),
        disk("/dev/sdx", 100, None),
        disk("/dev/sdb", 400, Some(true)),
        disk("/dev/sdy", 300, Some(false)),
    ];
    let plan = reconcile_plan(&found, blocks, "/data").unwrap();
    assert_eq!(
        plan,
        vec![
            command("bcachefs", &["device", "add", "--label", "ssd.d5", "/data", "/dev/sdy"], None),
            command("bcachefs", &["device", "add", "--label", "hdd.d6", "/data", "/dev/sdx"], None),
            command("bcachefs", &["data", "rereplicate", "/data"], None),
        ]
    );
}

#[test]
fn reconcile_without_new_disks_only_removes() {
    let found = survey(vec![slot("dev-0", Some("sda")), slot("dev-1", None), slot("dev-2", None)]);
    let plan = reconcile_plan(&found, vec![disk("/dev/sda", 1, None)], "/data").unwrap();
    assert_eq!(
        plan,
        vec![
            command("bcachefs", &["device", "remove", "1", "/data"], None),
            command("bcachefs", &["device", "remove", "2", "/data"], None),
        ]
    );
    let healthy = survey(vec![slot("dev-0", Some("sda"))]);
    assert!(reconcile_plan(&healthy, vec![], "/data").unwrap().is_empty());
}

#[test]
fn reconcile_fails_when_slot_numbers_run_out() {
    let found = PoolSurvey { missing: vec![], members: vec![], last_index: usize::MAX };
    assert_eq!(reconcile_plan(&found, vec![disk("/dev/sda", 1, None)], "/data"), Err(Error::Config));
    let found = PoolSurvey { missing: vec![], members: vec![], last_index: usize::MAX };
    assert_eq!(reconcile_plan(&found, vec![], "/data"), Ok(vec![]));
}

#[test]
fn format_needs_two_unused_disks() {
    assert_eq!(format_plan("u", None, vec![]), Err(Error::Config));
    assert_eq!(format_plan("u", None, vec![disk("/dev/sda", 1, None)]), Err(Error::Config));
    let mut usb = disk("/dev/sdb", 1, None);
    usb.subsystems = "block:usb".to_string();
    assert_eq!(
        format_plan("u", Some("k".to_string()), vec![disk("/dev/sda", 1, None), usb]),
        Err(Error::Config)
    );
}

#[test]
fn format_spans_all_unused_disks_with_two_replicas() {
    let blocks = vec![
        disk("/dev/sda", 100, Some(true)),
        disk("/dev/nvme0n1", 300, Some(false)),
        disk("/dev/sdb", 200, None),
    ];
    let plan = format_plan("1234-abcd", None, blocks).unwrap();
    assert_eq!(
        plan,
        command(
            "bcachefs",
            &[
                "format",
                "--uuid=1234-abcd",
                "--force",
                "--replicas=2",
                "--metadata_replicas_required=2",
                "--data_replicas_required=2",
                "--compression=zstd",
                "--label=ssd.d0",
                "/dev/nvme0n1",
                "--label=hdd.d1",
                "/dev/sdb",
                "--label=hdd.d2",
                "/dev/sda",
                "--promote_target=ssd",
                "--foreground_target=ssd",
                "--background_target=hdd",
            ],
            None
        )
    );
}

#[test]
fn format_of_an_encrypted_pool_feeds_the_key() {
    let blocks = vec![disk("/dev/sda", 100, Some(true)), disk("/dev/sdb", 100, Some(true))];
    let plan = format_plan("u", Some("s3cret".to_string()), blocks).unwrap();
    assert_eq!(
        plan,
        command(
            "bcachefs",
            &[
                "format",
                "--uuid=u",
                "--force",
                "--replicas=2",
                "--metadata_replicas_required=2",
                "--data_replicas_required=2",
                "--compression=zstd",
                "--encrypted",
                "--label=hdd.d0",
                "/dev/sda",
                "--label=hdd.d1",
                "/dev/sdb",
                "--background_target=hdd",
            ],
            Some("s3cret")
        )
    );
    let blocks = vec![disk("/dev/a", 1, Some(false)), disk("/dev/b", 1, Some(false))];
    let plan = format_plan("u", None, blocks).unwrap();
    assert_eq!(plan.args[plan.args.len() - 2..], ["--promote_target=ssd", "--foreground_target=ssd"]);
}

#[test]
fn pool_commands_are_spelled_out() {
    assert_eq!(
        mount_command("u-1", "/mnt/persistent", None),
        command(
            "bcachefs",
            &["mount", "-o", "degraded,fsck,fix_errors", "UUID=u-1", "/mnt/persistent", "--key_location=fail"],
            None
        )
    );
    assert_eq!(
        mount_command("u-1", "/mnt/persistent", Some("k".to_string())),
        command(
            "bcachefs",
            &["mount", "-o", "degraded,fsck,fix_errors", "UUID=u-1", "/mnt/persistent", "--key_location=stdin"],
            Some("k")
        )
    );
    assert_eq!(
        probe_command("u-1"),
        command("bcachefs", &["show-super", "/dev/disk/by-uuid/u-1"], None)
    );
    assert_eq!(cleanup_command("/mnt/persistent"), command("umount", &["--lazy", "/mnt/persistent"], None));
}
