use seed::conf::disk::{DiskAction, DiskConf};
use seed::conf::part::{PartAction, PartConf};
use seed::conf::seed::{
    EnvConf, FSTabConf, FSTabMode, InstallationConf, SeedConf, SystemdConf,
};
use seed::diskmgr::diskmanager::{configure_disks, create_disk, unknown_table, DiskStep, TableSource};
use seed::diskmgr::filesystem::{create_filesystem, format_outcome, needs_filesystem, remove_newlines};
use seed::leaf::leaf_install_system;

fn part(action: PartAction, fs: Option<&str>) -> PartConf {
    PartConf::new(action, None, fs.map(|f| f.to_string()), None, None)
}

fn disk(path: &str, action: DiskAction, table: Option<&str>, partitions: Vec<PartConf>) -> DiskConf {
    DiskConf { path: path.to_string(), action, table: table.map(|t| t.to_string()), partitions }
}

fn seed_conf(disks: Vec<DiskConf>) -> SeedConf {
    SeedConf {
        workdir: "/work".to_string(),
        env: EnvConf { chrootcmd: None },
        disks,
        installation: InstallationConf { pkglisturl: None, packages: None },
        fstab: FSTabConf { mode: FSTabMode::Device, path: None },
        systemd: SystemdConf { enable_units: None },
        symlinks: None,
        time: None,
        lang: None,
    }
}

#[test]
fn table_of_a_new_disk_is_fresh() {
    let source = create_disk(&disk("/dev/sda", DiskAction::New, Some("gpt"), vec![]));
    assert!(matches!(source, Ok(TableSource::Fresh(table)) if table == "gpt"));
}

#[test]
fn table_of_a_new_disk_needs_its_type() {
    let e = create_disk(&disk("/dev/sda", DiskAction::New, None, vec![])).unwrap_err();
    assert_eq!(e.context, "/dev/sda");
    assert_eq!(e.msg, "'table' field is required when disk action is 'new'");
}

#[test]
fn table_of_other_disks_is_read() {
    for action in [DiskAction::Locked, DiskAction::Keep, DiskAction::Alter] {
        assert!(matches!(create_disk(&disk("/dev/sda", action, Some("gpt"), vec![])), Ok(TableSource::Existing)));
        assert!(matches!(create_disk(&disk("/dev/sda", action, None, vec![])), Ok(TableSource::Existing)));
    }
}

#[test]
fn unknown_table_message() {
    assert_eq!(unknown_table("zfs", "/dev/sda"), "Unknown partition table zfs for /dev/sda");
}

#[test]
fn steps_of_an_empty_description() {
    assert_eq!(configure_disks(&seed_conf(vec![])), vec![DiskStep::MountPartitions, DiskStep::Sync]);
}

#[test]
fn steps_disk_by_disk() {
    let seed = seed_conf(vec![
        disk(
            "/dev/sda",
            DiskAction::New,
            Some("gpt"),
            vec![
                part(PartAction::Create, Some("vfat")),
                part(PartAction::Keep, None),
                part(PartAction::Format, Some("ext4")),
                part(PartAction::Resize, None),
            ],
        ),
        disk("/dev/sdb", DiskAction::Keep, None, vec![]),
        disk("/dev/sdc", DiskAction::Alter, None, vec![part(PartAction::Format, Some("xfs"))]),
    ]);
    assert_eq!(
        configure_disks(&seed),
        vec![
            DiskStep::OpenTable { disk: 0 },
            DiskStep::ConfigurePartition { disk: 0, part: 0 },
            DiskStep::ConfigurePartition { disk: 0, part: 1 },
            DiskStep::ConfigurePartition { disk: 0, part: 2 },
            DiskStep::ConfigurePartition { disk: 0, part: 3 },
            DiskStep::CommitTable { disk: 0 },
            DiskStep::Sync,
            DiskStep::CreateFilesystem { disk: 0, part: 0 },
            DiskStep::CreateFilesystem { disk: 0, part: 2 },
            DiskStep::Sync,
            DiskStep::OpenTable { disk: 1 },
            DiskStep::CommitTable { disk: 1 },
            DiskStep::Sync,
            DiskStep::Sync,
            DiskStep::OpenTable { disk: 2 },
            DiskStep::ConfigurePartition { disk: 2, part: 0 },
            DiskStep::CommitTable { disk: 2 },
            DiskStep::Sync,
            DiskStep::CreateFilesystem { disk: 2, part: 0 },
            DiskStep::Sync,
            DiskStep::MountPartitions,
            DiskStep::Sync,
        ]
    );
}

#[test]
fn filesystems_are_made_on_created_and_formatted_partitions() {
    assert!(needs_filesystem(&part(PartAction::Create, None)));
    assert!(needs_filesystem(&part(PartAction::Format, Some("ext4"))));
    assert!(!needs_filesystem(&part(PartAction::Keep, Some("ext4"))));
    assert!(!needs_filesystem(&part(PartAction::Resize, Some("ext4"))));
}

#[test]
fn format_command_of_a_partition() {
    let d = disk("/dev/sda", DiskAction::Alter, None, vec![]);
    let mut p = part(PartAction::Format, Some("ext4"));
    p.index = 3;
    let command = create_filesystem(&d, &p).unwrap();
    assert_eq!(command.program, "mkfs");
    assert_eq!(command.args, vec!["-text4".to_string(), "/dev/sda3".to_string()]);
}

#[test]
fn format_command_needs_a_filesystem() {
    let d = disk("/dev/sda", DiskAction::Alter, None, vec![]);
    assert!(create_filesystem(&d, &part(PartAction::Create, None)).is_none());
}

#[test]
fn format_outcome_of_success() {
    assert_eq!(format_outcome(true, ""), Ok(()));
    assert_eq!(format_outcome(true, "warning: something\n"), Ok(()));
}

#[test]
fn format_outcome_of_failure_is_the_error_text_in_one_line() {
    assert_eq!(
        format_outcome(false, "mkfs: bad type\nusage: mkfs\n"),
        Err("mkfs: bad typeusage: mkfs".to_string())
    );
    assert_eq!(format_outcome(false, ""), Err(String::new()));
}

#[test]
fn newlines_are_removed() {
    assert_eq!(remove_newlines(""), "");
    assert_eq!(remove_newlines("\n\n"), "");
    assert_eq!(remove_newlines("a\nb\r\nc"), "ab\rc");
    assert_eq!(remove_newlines("no line feed"), "no line feed");
}

#[test]
fn leaf_request_of_a_description() {
    let mut seed = seed_conf(vec![]);
    seed.installation.pkglisturl = Some("https://example.org/list".to_string());
    seed.installation.packages = Some(vec!["base".to_string(), "linux".to_string()]);
    let request = leaf_install_system(&seed);
    assert_eq!(request.pkglisturl, Some("https://example.org/list".to_string()));
    assert_eq!(request.rootdir, "/work/mount/");
    assert!(request.noask);
    assert_eq!(request.packages, vec!["base".to_string(), "linux".to_string()]);
}

#[test]
fn leaf_request_without_packages() {
    let request = leaf_install_system(&seed_conf(vec![]));
    assert_eq!(request.pkglisturl, None);
    assert_eq!(request.rootdir, "/work/mount/");
    assert!(request.packages.is_empty());
}
