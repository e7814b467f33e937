use seed::conf::disk::{DiskAction, DiskConf, Warning};
use seed::conf::installfile::InstallFile;
use seed::conf::part::{IgnoredField, PartAction, PartConf, PartRule};
use seed::conf::seed::{
    EnvConf, FSTabConf, FSTabMode, InstallationConf, SeedConf, SystemdConf,
};
use seed::conf::size::{DataSize, PartSize};
use seed::conf::validate::{Validate, ValidationError};

fn part(action: PartAction, size: bool, fs: bool, mount: Option<&str>, fstab: Option<bool>) -> PartConf {
    PartConf::new(
        action,
        if size { Some(PartSize::Size(1, DataSize::GB)) } else { None },
        if fs { Some("ext4".to_string()) } else { None },
        mount.map(|m| m.to_string()),
        fstab,
    )
}

fn disk(action: DiskAction, table: Option<&str>, partitions: Vec<PartConf>) -> DiskConf {
    DiskConf {
        path: "/dev/sda".to_string(),
        action,
        table: table.map(|t| t.to_string()),
        partitions,
    }
}

fn seed_conf(disks: Vec<DiskConf>) -> SeedConf {
    SeedConf {
        workdir: "/root/".to_string(),
        env: EnvConf { chrootcmd: None },
        disks,
        installation: InstallationConf { pkglisturl: None, packages: None },
        fstab: FSTabConf { mode: FSTabMode::UUID, path: None },
        systemd: SystemdConf { enable_units: None },
        symlinks: None,
        time: None,
        lang: None,
    }
}

fn failure(p: &mut PartConf) -> Option<(String, String)> {
    p.validate().err().map(|e| (e.context, e.msg))
}

#[test]
fn validation_error_new_and_line() {
    let e = ValidationError::new("/dev/sda -> 2", "broken");
    assert_eq!(e.context, "/dev/sda -> 2");
    assert_eq!(e.msg, "broken");
    assert_eq!(e.to_string(), "Failed validation: /dev/sda -> 2: broken");
}

#[test]
fn table_absent_on_new_disk_fails() {
    let mut d = disk(DiskAction::New, None, vec![part(PartAction::Create, true, true, None, None)]);
    let e = d.validate().unwrap_err();
    assert_eq!(e.context, "/dev/sda");
    assert_eq!(e.msg, "'table' field is required when disk action is 'new'");
    assert_eq!(d.partitions[0].index, 0);
}

#[test]
fn table_present_on_new_disk_passes() {
    let mut d = disk(DiskAction::New, Some("gpt"), vec![]);
    assert!(d.validate().is_ok());
    assert_eq!(d.warnings(), vec![]);
}

#[test]
fn table_present_on_other_disks_only_warns() {
    for action in [DiskAction::Locked, DiskAction::Keep, DiskAction::Alter] {
        let mut d = disk(action, Some("gpt"), vec![part(PartAction::Keep, false, false, None, None)]);
        assert!(d.validate().is_ok());
        assert_eq!(d.table, Some("gpt".to_string()));
        assert_eq!(d.warnings(), vec![Warning { partition: None, field: IgnoredField::Table }]);
    }
}

#[test]
fn table_absent_on_other_disks_passes_without_warning() {
    for action in [DiskAction::Locked, DiskAction::Keep, DiskAction::Alter] {
        let mut d = disk(action, None, vec![]);
        assert!(d.validate().is_ok());
        assert_eq!(d.warnings(), vec![]);
    }
}

#[test]
fn field_matrix_keep() {
    for size in [false, true] {
        for fs in [false, true] {
            assert_eq!(failure(&mut part(PartAction::Keep, size, fs, None, None)), None);
        }
    }
}

#[test]
fn field_matrix_format() {
    for size in [false, true] {
        assert_eq!(failure(&mut part(PartAction::Format, size, true, None, None)), None);
        assert_eq!(
            failure(&mut part(PartAction::Format, size, false, None, None)),
            Some((
                "0".to_string(),
                "'fs' is required when partition action is set to 'format'".to_string()
            ))
        );
    }
}

#[test]
fn field_matrix_resize() {
    for fs in [false, true] {
        assert_eq!(failure(&mut part(PartAction::Resize, true, fs, None, None)), None);
        assert_eq!(
            failure(&mut part(PartAction::Resize, false, fs, None, None)),
            Some(("0".to_string(), "'size' is required when action is 'resize'".to_string()))
        );
    }
}

#[test]
fn field_matrix_create() {
    for fs in [false, true] {
        assert_eq!(failure(&mut part(PartAction::Create, true, fs, None, None)), None);
        assert_eq!(
            failure(&mut part(PartAction::Create, false, fs, None, None)),
            Some(("0".to_string(), "'size' is required when action is 'create'".to_string()))
        );
    }
}

#[test]
fn create_with_mount_needs_filesystem() {
    assert_eq!(failure(&mut part(PartAction::Create, true, true, Some("/"), None)), None);
    assert_eq!(
        failure(&mut part(PartAction::Create, true, false, Some("/"), None)),
        Some(("0".to_string(), "'fs' is required when new partition is mounted".to_string()))
    );
    // the size is looked at first
    assert_eq!(
        failure(&mut part(PartAction::Create, false, false, Some("/"), None)),
        Some(("0".to_string(), "'size' is required when action is 'create'".to_string()))
    );
}

#[test]
fn fstab_needs_mount() {
    for action in [PartAction::Keep, PartAction::Format, PartAction::Resize, PartAction::Create] {
        assert_eq!(
            failure(&mut part(action, true, true, None, Some(true))),
            Some(("0".to_string(), "Can not add partition without 'mount' to fstab".to_string()))
        );
        assert_eq!(failure(&mut part(action, true, true, None, Some(false))), None);
        assert_eq!(failure(&mut part(action, true, true, Some("/"), Some(true))), None);
    }
}

#[test]
fn broken_rule_of_each_kind() {
    assert_eq!(part(PartAction::Format, false, false, None, None).broken_rule(), Some(PartRule::FormatNeedsFs));
    assert_eq!(part(PartAction::Resize, false, false, None, None).broken_rule(), Some(PartRule::ResizeNeedsSize));
    assert_eq!(part(PartAction::Create, false, false, None, None).broken_rule(), Some(PartRule::CreateNeedsSize));
    assert_eq!(part(PartAction::Create, true, false, Some("/x"), None).broken_rule(), Some(PartRule::MountNeedsFs));
    assert_eq!(part(PartAction::Keep, false, false, None, Some(true)).broken_rule(), Some(PartRule::FstabNeedsMount));
    assert_eq!(part(PartAction::Keep, true, true, None, None).broken_rule(), None);
}

#[test]
fn validation_leaves_a_partition_alone() {
    let mut p = part(PartAction::Create, true, true, Some("/home"), Some(true));
    p.index = 7;
    assert!(p.validate().is_ok());
    assert_eq!(p.index, 7);
    assert_eq!(p.action, PartAction::Create);
    assert_eq!(p.size, Some(PartSize::Size(1, DataSize::GB)));
    assert_eq!(p.fs, Some("ext4".to_string()));
    assert_eq!(p.mount, Some("/home".to_string()));
    assert_eq!(p.fstab, Some(true));
    assert!(!p.is_mounted());
}

#[test]
fn partition_error_names_the_index() {
    let mut p = part(PartAction::Format, false, false, None, None);
    p.index = 12;
    assert_eq!(p.validate().unwrap_err().context, "12");
}

#[test]
fn ignored_fields() {
    assert_eq!(part(PartAction::Keep, true, true, None, None).ignored(), vec![IgnoredField::Size, IgnoredField::Fs]);
    assert_eq!(part(PartAction::Keep, false, true, None, None).ignored(), vec![IgnoredField::Fs]);
    assert_eq!(part(PartAction::Format, true, true, None, None).ignored(), vec![IgnoredField::Size]);
    assert_eq!(part(PartAction::Resize, true, true, None, None).ignored(), vec![IgnoredField::Fs]);
    assert_eq!(part(PartAction::Create, true, true, None, None).ignored(), vec![]);
    assert_eq!(part(PartAction::Keep, false, false, None, None).ignored(), vec![]);
}

#[test]
fn locked_disk_with_altered_partition_fails() {
    let mut d = disk(
        DiskAction::Locked,
        None,
        vec![
            part(PartAction::Keep, false, false, None, None),
            part(PartAction::Format, false, true, None, None),
            part(PartAction::Create, true, true, None, None),
        ],
    );
    let e = d.validate().unwrap_err();
    assert_eq!(e.context, "/dev/sda -> 2");
    assert_eq!(e.msg, "Partition action must be 'keep' if disk action is 'locked'");
    assert_eq!(e.to_string(), "Failed validation: /dev/sda -> 2: Partition action must be 'keep' if disk action is 'locked'");
    // nothing was numbered
    assert_eq!(d.partitions[0].index, 0);
    assert_eq!(d.partitions[1].index, 0);
}

#[test]
fn locked_disk_that_keeps_everything_passes() {
    let mut d = disk(
        DiskAction::Locked,
        None,
        vec![part(PartAction::Keep, false, false, Some("/"), None), part(PartAction::Keep, true, true, None, None)],
    );
    assert!(d.validate().is_ok());
    assert_eq!(d.partitions[0].index, 1);
    assert_eq!(d.partitions[1].index, 2);
}

#[test]
fn other_disks_may_alter_partitions() {
    for action in [DiskAction::Keep, DiskAction::Alter] {
        let mut d = disk(action, None, vec![part(PartAction::Format, false, true, None, None)]);
        assert!(d.validate().is_ok());
    }
}

#[test]
fn indices_are_assigned_in_document_order() {
    let mut parts = vec![
        part(PartAction::Keep, false, false, None, None),
        part(PartAction::Create, true, true, Some("/"), None),
        part(PartAction::Format, false, true, None, None),
        part(PartAction::Resize, true, false, None, None),
    ];
    parts[0].index = 40;
    parts[1].index = 3;
    parts[2].index = 0;
    parts[3].index = 1;
    let mut d = disk(DiskAction::Alter, None, parts);
    assert!(d.validate().is_ok());
    let indices: Vec<usize> = d.partitions.iter().map(|p| p.index).collect();
    assert_eq!(indices, vec![1, 2, 3, 4]);
    assert_eq!(d.partitions[1].mount, Some("/".to_string()));
    assert_eq!(d.partitions[3].action, PartAction::Resize);
    assert_eq!(d.path, "/dev/sda");
    // a second pass changes nothing
    assert!(d.validate().is_ok());
    let again: Vec<usize> = d.partitions.iter().map(|p| p.index).collect();
    assert_eq!(again, vec![1, 2, 3, 4]);
}

#[test]
fn validation_stops_at_the_first_broken_partition() {
    let mut parts = vec![
        part(PartAction::Keep, false, false, None, None),
        part(PartAction::Format, false, false, None, None),
        part(PartAction::Create, false, false, None, None),
    ];
    parts[2].index = 99;
    let mut d = disk(DiskAction::Alter, None, parts);
    let e = d.validate().unwrap_err();
    assert_eq!(e.context, "2");
    assert_eq!(e.msg, "'fs' is required when partition action is set to 'format'");
    assert_eq!(d.partitions[0].index, 1);
    assert_eq!(d.partitions[1].index, 2);
    assert_eq!(d.partitions[2].index, 99);
}

#[test]
fn disk_without_partitions_passes() {
    let mut d = disk(DiskAction::Keep, None, vec![]);
    assert!(d.validate().is_ok());
    assert!(d.partitions.is_empty());
}

#[test]
fn disk_warnings_in_order() {
    let d = disk(
        DiskAction::Keep,
        Some("msdos"),
        vec![
            part(PartAction::Keep, true, true, None, None),
            part(PartAction::Create, true, true, None, None),
            part(PartAction::Resize, true, true, None, None),
        ],
    );
    assert_eq!(
        d.warnings(),
        vec![
            Warning { partition: None, field: IgnoredField::Table },
            Warning { partition: Some(1), field: IgnoredField::Size },
            Warning { partition: Some(1), field: IgnoredField::Fs },
            Warning { partition: Some(3), field: IgnoredField::Fs },
        ]
    );
}

#[test]
fn warning_messages() {
    let table = Warning { partition: None, field: IgnoredField::Table };
    assert_eq!(table.message("/dev/sda"), "/dev/sda: Ignoring 'table': Not allowed in this mode");
    let size = Warning { partition: Some(3), field: IgnoredField::Size };
    assert_eq!(size.message("/dev/sda"), "Partition 3: Ignoring 'size': Not allowed in this mode");
    let fs = Warning { partition: Some(10), field: IgnoredField::Fs };
    assert_eq!(fs.message("/dev/sdb"), "Partition 10: Ignoring 'fs': Not allowed in this mode");
}

#[test]
fn seed_validation_stops_at_the_first_broken_disk() {
    let good = disk(DiskAction::Alter, None, vec![part(PartAction::Keep, false, false, None, None)]);
    let mut bad = disk(
        DiskAction::Alter,
        None,
        vec![part(PartAction::Keep, false, false, None, None), part(PartAction::Resize, false, false, None, None)],
    );
    bad.path = "/dev/sdb".to_string();
    let late = disk(DiskAction::New, None, vec![part(PartAction::Keep, false, false, None, None)]);
    let mut seed = seed_conf(vec![good, bad, late]);
    let e = seed.validate().unwrap_err();
    assert_eq!(e.context, "2");
    assert_eq!(e.msg, "'size' is required when action is 'resize'");
    assert_eq!(seed.disks[0].partitions[0].index, 1);
    assert_eq!(seed.disks[1].partitions[0].index, 1);
    assert_eq!(seed.disks[1].partitions[1].index, 2);
    assert_eq!(seed.disks[2].partitions[0].index, 0);
    assert_eq!(seed.workdir, "/root/");
}

#[test]
fn seed_validation_numbers_every_disk() {
    let mut seed = seed_conf(vec![
        disk(
            DiskAction::Alter,
            None,
            vec![part(PartAction::Keep, false, false, None, None), part(PartAction::Keep, false, false, None, None)],
        ),
        disk(DiskAction::New, Some("gpt"), vec![part(PartAction::Create, true, true, Some("/"), Some(true))]),
    ]);
    assert!(seed.validate().is_ok());
    assert_eq!(seed.disks[0].partitions[0].index, 1);
    assert_eq!(seed.disks[0].partitions[1].index, 2);
    assert_eq!(seed.disks[1].partitions[0].index, 1);
}

#[test]
fn seed_without_disks_passes() {
    assert!(seed_conf(vec![]).validate().is_ok());
}

#[test]
fn install_file_validation_is_that_of_its_seed() {
    let mut file = InstallFile { seed: seed_conf(vec![disk(DiskAction::New, None, vec![])]) };
    let e = file.validate().unwrap_err();
    assert_eq!(e.context, "/dev/sda");
    let mut file = InstallFile {
        seed: seed_conf(vec![disk(DiskAction::Keep, None, vec![part(PartAction::Keep, false, false, None, None)])]),
    };
    assert!(file.validate().is_ok());
    assert_eq!(file.seed.disks[0].partitions[0].index, 1);
}
