use seed::conf::part::{PartAction, PartConf};
use seed::conf::size::{DataSize, PartSize};
use seed::diskmgr::part::{configure_partitions, DiskLayout, PartEntry, PartitionPlan, PlanError};
use seed::diskmgr::util::get_next_possible_start;

fn entry(num: u32, start: i64, end: i64) -> PartEntry {
    PartEntry { num, start, end, path: format!("/dev/sda{}", num) }
}

fn layout(entries: Vec<PartEntry>) -> DiskLayout {
    DiskLayout { partitions: entries }
}

fn conf(action: PartAction, index: usize, size: Option<PartSize>) -> PartConf {
    let mut p = PartConf::new(action, size, None, None, None);
    p.index = index;
    p
}

#[test]
fn next_start_on_an_empty_disk() {
    assert_eq!(get_next_possible_start(&layout(vec![])), Some(0));
}

#[test]
fn next_start_after_the_last_partition() {
    assert_eq!(get_next_possible_start(&layout(vec![entry(1, 0, 2047)])), Some(2048));
}

#[test]
fn next_start_goes_by_the_highest_number() {
    let disk = layout(vec![entry(2, 5000, 9999), entry(3, 100, 199), entry(1, 10000, 20000)]);
    assert_eq!(get_next_possible_start(&disk), Some(200));
}

#[test]
fn next_start_beyond_the_last_sector() {
    assert_eq!(get_next_possible_start(&layout(vec![entry(1, 0, i64::MAX)])), None);
    assert_eq!(get_next_possible_start(&layout(vec![entry(1, 0, i64::MAX - 1)])), Some(i64::MAX));
}

#[test]
fn get_partition_by_number() {
    let disk = layout(vec![entry(2, 5000, 9999), entry(1, 0, 4999)]);
    assert_eq!(disk.get_partition(1).map(|e| e.start), Some(0));
    assert_eq!(disk.get_partition(2).map(|e| e.path.clone()), Some("/dev/sda2".to_string()));
    assert!(disk.get_partition(3).is_none());
    assert!(disk.get_partition(0).is_none());
}

#[test]
fn create_on_an_empty_disk() {
    let plan = configure_partitions(
        &layout(vec![]),
        &conf(PartAction::Create, 1, Some(PartSize::Size(500, DataSize::MB))),
        512,
    );
    assert!(matches!(plan, Ok(PartitionPlan::Create { start: 0, end: 1_024_000 })));
}

#[test]
fn create_after_existing_partitions() {
    let plan = configure_partitions(
        &layout(vec![entry(1, 0, 2047)]),
        &conf(PartAction::Create, 2, Some(PartSize::Size(1000, DataSize::B))),
        512,
    );
    assert!(matches!(plan, Ok(PartitionPlan::Create { start: 2048, end: 2050 })));
}

#[test]
fn create_with_unresolved_size_takes_one_sector() {
    let plan = configure_partitions(
        &layout(vec![entry(1, 0, 99)]),
        &conf(PartAction::Create, 2, Some(PartSize::PercentTotal(50))),
        512,
    );
    assert!(matches!(plan, Ok(PartitionPlan::Create { start: 100, end: 101 })));
}

#[test]
fn create_where_a_partition_exists() {
    let e = configure_partitions(
        &layout(vec![entry(1, 0, 2047)]),
        &conf(PartAction::Create, 1, Some(PartSize::Size(1, DataSize::GB))),
        512,
    )
    .unwrap_err();
    assert!(e.already_exists());
    assert!(matches!(&e, PlanError::AlreadyExists { index: 1, path } if path == "/dev/sda1"));
    assert_eq!(e.to_string(), "Can't create partition 1: Already exists at /dev/sda1");
}

#[test]
fn create_without_room_for_a_start() {
    let e = configure_partitions(
        &layout(vec![entry(1, 0, i64::MAX)]),
        &conf(PartAction::Create, 2, Some(PartSize::Size(1, DataSize::GB))),
        512,
    )
    .unwrap_err();
    assert!(matches!(e, PlanError::NoStart));
    assert!(!e.already_exists());
    assert_eq!(e.to_string(), "Unable to determine start of new partition");
}

#[test]
fn create_without_size() {
    let e = configure_partitions(&layout(vec![]), &conf(PartAction::Create, 4, None), 512).unwrap_err();
    assert!(matches!(e, PlanError::MissingSize { index: 4 }));
    assert_eq!(e.to_string(), "Can't create partition 4: No size given");
}

#[test]
fn create_too_large() {
    let e = configure_partitions(
        &layout(vec![]),
        &conf(PartAction::Create, 1, Some(PartSize::Size(u32::MAX, DataSize::TB))),
        512,
    )
    .unwrap_err();
    assert!(matches!(e, PlanError::TooLarge { index: 1 }));
    assert_eq!(e.to_string(), "Can't create partition 1: Size too large");
    let e = configure_partitions(
        &layout(vec![entry(1, 0, i64::MAX - 2)]),
        &conf(PartAction::Create, 2, Some(PartSize::Size(2, DataSize::B))),
        1,
    )
    .unwrap_err();
    assert!(matches!(e, PlanError::TooLarge { index: 2 }));
    let plan = configure_partitions(
        &layout(vec![entry(1, 0, i64::MAX - 2)]),
        &conf(PartAction::Create, 2, Some(PartSize::Size(1, DataSize::B))),
        1,
    );
    assert!(matches!(plan, Ok(PartitionPlan::Create { start, end }) if start == i64::MAX - 1 && end == i64::MAX));
}

#[test]
fn keep_and_format_find_the_partition() {
    for action in [PartAction::Keep, PartAction::Format] {
        let plan = configure_partitions(&layout(vec![entry(1, 0, 9), entry(2, 10, 19)]), &conf(action, 2, None), 512);
        assert!(matches!(plan, Ok(PartitionPlan::Existing { path }) if path == "/dev/sda2"));
    }
}

#[test]
fn keep_and_format_need_the_partition() {
    for action in [PartAction::Keep, PartAction::Format] {
        let e = configure_partitions(&layout(vec![entry(1, 0, 9)]), &conf(action, 2, None), 512).unwrap_err();
        assert!(matches!(e, PlanError::NotFound { index: 2 }));
        assert_eq!(e.to_string(), "Could not find partition with index 2");
    }
}

#[test]
fn resize_is_not_implemented() {
    let e = configure_partitions(
        &layout(vec![entry(1, 0, 9)]),
        &conf(PartAction::Resize, 1, Some(PartSize::Size(1, DataSize::GB))),
        512,
    )
    .unwrap_err();
    assert!(matches!(e, PlanError::NotImplemented { action: PartAction::Resize }));
    assert_eq!(e.to_string(), "Partition action 'Resize': Not yet implemented");
}
