//! The course of the work on the disks: which steps are taken, and in which
//! order.
//!
//! For each disk in turn its partition table is opened, every partition is
//! configured, the table is committed and storage is synced; only then are
//! the filesystems made, and storage is synced again. When all disks are
//! done the partitions are mounted, and storage is synced a last time.

use vstd::prelude::*;
use vstd::string::*;
use crate::conf::disk::{table_required_text, DiskAction, DiskConf, DiskConfView};
use crate::conf::seed::SeedConf;
use crate::conf::validate::{ValidationError, ValidationErrorView};
use crate::diskmgr::filesystem::{needs_filesystem, wants_filesystem};
use crate::diskmgr::mount::countable;

verus! {

/// Where the partition table of a disk comes from.
#[derive(Debug)]
pub enum TableSource {
    /// A new, empty table of the given type is made.
    Fresh(String),
    /// The table that is on the disk is read.
    Existing,
}

/// A [`TableSource`] with its type taken by its characters.
pub enum TableSourceView {
    Fresh(Seq<char>),
    Existing,
}

impl View for TableSource {
    type V = TableSourceView;

    open spec fn view(&self) -> TableSourceView {
        match self {
            TableSource::Fresh(table) => TableSourceView::Fresh(table@),
            TableSource::Existing => TableSourceView::Existing,
        }
    }
}

/// One step of the work on the disks. Disks and partitions are named by
/// their positions in the description, counted from 0.
#[derive(Clone, Copy, Debug, PartialEq, Eq, Structural)]
pub enum DiskStep {
    /// The device is opened and its partition table made or read.
    OpenTable { disk: usize },
    /// What is planned for the partition is done to the table.
    ConfigurePartition { disk: usize, part: usize },
    /// The table is written to the disk.
    CommitTable { disk: usize },
    /// Storage is synced.
    Sync,
    /// The filesystem of the partition is made.
    CreateFilesystem { disk: usize, part: usize },
    /// The partitions are mounted, in the order of their depth.
    MountPartitions,
}

/// Where the table of a disk comes from: a disk that gets a new table has a
/// fresh one of the type it names, and it is an error to name none; any
/// other disk has the table that is on it.
pub open spec fn table_source(d: DiskConfView) -> Result<TableSourceView, ValidationErrorView> {
    if d.action == DiskAction::New {
        match d.table {
            Some(table) => Ok(TableSourceView::Fresh(table)),
            None => Err(ValidationErrorView { context: d.path, msg: table_required_text() }),
        }
    } else {
        Ok(TableSourceView::Existing)
    }
}

/// A table source or an error, taken by its view.
pub open spec fn source_view(r: Result<TableSource, ValidationError>) -> Result<
    TableSourceView,
    ValidationErrorView,
> {
    match r {
        Ok(source) => Ok(source@),
        Err(e) => Err(e@),
    }
}

/// The message for a type of partition table that is not known.
pub open spec fn unknown_table_text(table: Seq<char>, disk: Seq<char>) -> Seq<char> {
    "Unknown partition table "@ + table + " for "@ + disk
}

/// The steps that configure the first `n` partitions of a disk.
pub open spec fn configure_steps(disk: int, n: int) -> Seq<DiskStep> {
    Seq::new(
        n as nat,
        |j: int| DiskStep::ConfigurePartition { disk: disk as usize, part: j as usize },
    )
}

/// The steps that make the filesystems among the first `n` partitions of a
/// disk: one for each partition that is created or formatted.
pub open spec fn format_steps(d: DiskConfView, disk: int, n: int) -> Seq<DiskStep>
    decreases n,
{
    if n <= 0 {
        Seq::empty()
    } else {
        format_steps(d, disk, n - 1) + if wants_filesystem(d.partitions[n - 1]) {
            seq![DiskStep::CreateFilesystem { disk: disk as usize, part: (n - 1) as usize }]
        } else {
            Seq::empty()
        }
    }
}

/// The steps for one disk.
pub open spec fn disk_block(d: DiskConfView, disk: int) -> Seq<DiskStep> {
    seq![DiskStep::OpenTable { disk: disk as usize }] + configure_steps(
        disk,
        d.partitions.len() as int,
    ) + seq![DiskStep::CommitTable { disk: disk as usize }, DiskStep::Sync] + format_steps(
        d,
        disk,
        d.partitions.len() as int,
    ) + seq![DiskStep::Sync]
}

/// The steps for the first `n` disks.
pub open spec fn blocks_before(disks: Seq<DiskConfView>, n: int) -> Seq<DiskStep>
    decreases n,
{
    if n <= 0 {
        Seq::empty()
    } else {
        blocks_before(disks, n - 1) + disk_block(disks[n - 1], n - 1)
    }
}

/// All steps: those for each disk in turn, then the mounting and a last
/// sync.
pub open spec fn disk_steps(disks: Seq<DiskConfView>) -> Seq<DiskStep> {
    blocks_before(disks, disks.len() as int) + seq![DiskStep::MountPartitions, DiskStep::Sync]
}

/// Decides where the partition table of a disk comes from.
pub fn create_disk(d_conf: &DiskConf) -> (r: Result<TableSource, ValidationError>)
    ensures
        source_view(r) == table_source(d_conf@),
{
    match d_conf.action {
        DiskAction::New => match &d_conf.table {
            Some(table) => Ok(TableSource::Fresh(table.clone())),
            None => Err(
                ValidationError::new(
                    d_conf.path.as_str(),
                    "'table' field is required when disk action is 'new'",
                ),
            ),
        },
        _ => Ok(TableSource::Existing),
    }
}

/// Writes the message for a type of partition table that is not known.
pub fn unknown_table(table: &str, disk_path: &str) -> (message: String)
    ensures
        message@ == unknown_table_text(table@, disk_path@),
{
    String::from_str("Unknown partition table ").concat(table).concat(" for ").concat(disk_path)
}

fn push_disk_block(d_conf: &DiskConf, disk: usize, steps: &mut Vec<DiskStep>)
    ensures
        final(steps)@ == old(steps)@ + disk_block(d_conf@, disk as int),
{
    let ghost before = steps@;
    let ghost d = d_conf@;
    let count = d_conf.partitions.len();
    steps.push(DiskStep::OpenTable { disk });
    let ghost opened = steps@;
    let mut j: usize = 0;
    assert(opened + configure_steps(disk as int, 0) =~= opened);
    while j < count
        invariant
            j <= count,
            steps@ == opened + configure_steps(disk as int, j as int),
        decreases count - j,
    {
        steps.push(DiskStep::ConfigurePartition { disk, part: j });
        assert(steps@ =~= opened + configure_steps(disk as int, j + 1));
        j = j + 1;
    }
    steps.push(DiskStep::CommitTable { disk });
    steps.push(DiskStep::Sync);
    let ghost committed = steps@;
    let mut j: usize = 0;
    assert(committed + format_steps(d, disk as int, 0) =~= committed);
    while j < count
        invariant
            j <= count,
            count == d_conf.partitions.len(),
            d == d_conf@,
            steps@ == committed + format_steps(d, disk as int, j as int),
        decreases count - j,
    {
        assert(d.partitions[j as int] == d_conf.partitions@[j as int]@);
        if needs_filesystem(&d_conf.partitions[j]) {
            steps.push(DiskStep::CreateFilesystem { disk, part: j });
        }
        assert(steps@ =~= committed + format_steps(d, disk as int, j + 1));
        j = j + 1;
    }
    steps.push(DiskStep::Sync);
    assert(steps@ =~= before + disk_block(d, disk as int));
}

/// Lays out the work on the disks of a description, step by step. Nothing
/// is done here: whoever carries the steps out takes one after the other
/// and stops at the first that fails.
pub fn configure_disks(conf: &SeedConf) -> (steps: Vec<DiskStep>)
    ensures
        steps@ == disk_steps(conf@.disks),
{
    let ghost disks = conf@.disks;
    let mut steps: Vec<DiskStep> = Vec::new();
    let mut i: usize = 0;
    while i < conf.disks.len()
        invariant
            i <= conf.disks.len(),
            disks == conf@.disks,
            disks.len() == conf.disks.len(),
            steps@ == blocks_before(disks, i as int),
        decreases conf.disks.len() - i,
    {
        assert(disks[i as int] == conf.disks@[i as int]@);
        push_disk_block(&conf.disks[i], i, &mut steps);
        i = i + 1;
    }
    steps.push(DiskStep::MountPartitions);
    steps.push(DiskStep::Sync);
    assert(steps@ =~= disk_steps(disks));
    steps
}

/// Every step that makes a filesystem among the first `n` partitions of a
/// disk is for a partition of that disk that is created or formatted.
pub proof fn lemma_format_steps(d: DiskConfView, disk: int, n: int, p: int)
    requires
        0 <= disk <= usize::MAX,
        0 <= n <= d.partitions.len() <= usize::MAX,
        0 <= p < format_steps(d, disk, n).len(),
    ensures
        format_steps(d, disk, n)[p] is CreateFilesystem,
        format_steps(d, disk, n)[p]->CreateFilesystem_disk == disk,
        format_steps(d, disk, n)[p]->CreateFilesystem_part < n,
        wants_filesystem(d.partitions[format_steps(d, disk, n)[p]->CreateFilesystem_part as int]),
    decreases n,
{
    if n > 0 {
        let head = format_steps(d, disk, n - 1);
        if p < head.len() {
            lemma_format_steps(d, disk, n - 1, p);
        }
    }
}

/// The shape of the steps for one disk: the table is opened; each partition
/// is configured; the table is committed; storage is synced; filesystems are
/// made; storage is synced.
pub proof fn lemma_disk_block(d: DiskConfView, disk: int)
    requires
        0 <= disk <= usize::MAX,
        d.partitions.len() <= usize::MAX,
    ensures
        disk_block(d, disk).len() == d.partitions.len() + 4 + format_steps(
            d,
            disk,
            d.partitions.len() as int,
        ).len(),
        disk_block(d, disk)[0] == (DiskStep::OpenTable { disk: disk as usize }),
        forall|j: int|
            0 <= j < d.partitions.len() ==> #[trigger] disk_block(d, disk)[1 + j] == (
            DiskStep::ConfigurePartition { disk: disk as usize, part: j as usize }),
        disk_block(d, disk)[d.partitions.len() as int + 1] == (DiskStep::CommitTable {
            disk: disk as usize,
        }),
        disk_block(d, disk)[d.partitions.len() as int + 2] == DiskStep::Sync,
        forall|p: int|
            0 <= p < format_steps(d, disk, d.partitions.len() as int).len()
                ==> #[trigger] disk_block(d, disk)[d.partitions.len() + 3 + p] == format_steps(
                d,
                disk,
                d.partitions.len() as int,
            )[p],
        disk_block(d, disk).last() == DiskStep::Sync,
{
}

/// Where a step of the first `n` disks lies: in the block of one of them.
/// The block of disk `m` starts after the blocks of the disks before it.
pub proof fn lemma_locate_step(disks: Seq<DiskConfView>, n: int, k: int) -> (m: int)
    requires
        0 <= n <= disks.len(),
        0 <= k < blocks_before(disks, n).len(),
    ensures
        0 <= m < n,
        blocks_before(disks, m).len() <= k < blocks_before(disks, m).len() + disk_block(
            disks[m],
            m,
        ).len(),
        blocks_before(disks, n)[k] == disk_block(disks[m], m)[k - blocks_before(disks, m).len()],
    decreases n,
{
    let head = blocks_before(disks, n - 1);
    if k < head.len() {
        lemma_locate_step(disks, n - 1, k)
    } else {
        n - 1
    }
}

/// The blocks of the first disks are the beginning of the blocks of more
/// disks.
pub proof fn lemma_blocks_prefix(disks: Seq<DiskConfView>, m: int, n: int, k: int)
    requires
        0 <= m <= n <= disks.len(),
        0 <= k < blocks_before(disks, m).len(),
    ensures
        k < blocks_before(disks, n).len(),
        blocks_before(disks, n)[k] == blocks_before(disks, m)[k],
    decreases n - m,
{
    if m < n {
        lemma_blocks_prefix(disks, m, n - 1, k);
    }
}

/// Mounting comes last: it is the step before the final sync, and no step
/// before it mounts anything.
pub proof fn lemma_mounting_is_last(disks: Seq<DiskConfView>, k: int)
    requires
        countable(disks),
        0 <= k < disk_steps(disks).len(),
    ensures
        disk_steps(disks).len() >= 2,
        disk_steps(disks)[disk_steps(disks).len() - 2] == DiskStep::MountPartitions,
        disk_steps(disks).last() == DiskStep::Sync,
        disk_steps(disks)[k] == DiskStep::MountPartitions <==> k == disk_steps(disks).len() - 2,
{
    let blocks = blocks_before(disks, disks.len() as int);
    if k < blocks.len() {
        let m = lemma_locate_step(disks, disks.len() as int, k);
        let d = disks[m];
        let n = d.partitions.len() as int;
        let at = k - blocks_before(disks, m).len();
        lemma_disk_block(d, m);
        if at >= n + 3 && at < disk_block(d, m).len() - 1 {
            lemma_format_steps(d, m, n, at - n - 3);
            assert(disk_block(d, m)[n + 3 + (at - n - 3)] == format_steps(d, m, n)[at - n - 3]);
        } else if 1 <= at <= n {
            assert(disk_block(d, m)[1 + (at - 1)] is ConfigurePartition);
        }
    }
}

/// A filesystem is made only for a partition that is created or formatted,
/// only after the table of its disk is committed and storage is synced, and
/// before anything is mounted.
pub proof fn lemma_filesystem_after_commit(disks: Seq<DiskConfView>, k: int) -> (c: int)
    requires
        countable(disks),
        0 <= k < disk_steps(disks).len(),
        disk_steps(disks)[k] is CreateFilesystem,
    ensures
        disk_steps(disks)[k]->CreateFilesystem_disk < disks.len(),
        disk_steps(disks)[k]->CreateFilesystem_part < disks[disk_steps(
            disks,
        )[k]->CreateFilesystem_disk as int].partitions.len(),
        wants_filesystem(
            disks[disk_steps(disks)[k]->CreateFilesystem_disk as int].partitions[disk_steps(
                disks,
            )[k]->CreateFilesystem_part as int],
        ),
        0 <= c && c + 1 < k,
        disk_steps(disks)[c] == (DiskStep::CommitTable {
            disk: disk_steps(disks)[k]->CreateFilesystem_disk,
        }),
        disk_steps(disks)[c + 1] == DiskStep::Sync,
        k < disk_steps(disks).len() - 2,
{
    let total = disks.len() as int;
    let blocks = blocks_before(disks, total);
    let m = lemma_locate_step(disks, total, k);
    let d = disks[m];
    let n = d.partitions.len() as int;
    let start = blocks_before(disks, m).len() as int;
    let at = k - start;
    lemma_disk_block(d, m);
    if 1 <= at <= n {
        assert(disk_block(d, m)[1 + (at - 1)] is ConfigurePartition);
    }
    assert(n + 3 <= at < disk_block(d, m).len() - 1);
    lemma_format_steps(d, m, n, at - n - 3);
    assert(disk_block(d, m)[n + 3 + (at - n - 3)] == format_steps(d, m, n)[at - n - 3]);
    let c = start + n + 1;
    lemma_blocks_prefix(disks, m + 1, total, c);
    lemma_blocks_prefix(disks, m + 1, total, c + 1);
    assert(blocks_before(disks, m + 1)[c] == disk_block(d, m)[n + 1]);
    assert(blocks_before(disks, m + 1)[c + 1] == disk_block(d, m)[n + 2]);
    c
}

/// Every partition is configured, and the table of its disk is committed
/// afterwards: for each partition there is a step that configures it, and a
/// later step that commits its disk.
pub proof fn lemma_configure_before_commit(disks: Seq<DiskConfView>, disk: int, part: int) -> (at: (
    int,
    int,
))
    requires
        countable(disks),
        0 <= disk < disks.len(),
        0 <= part < disks[disk].partitions.len(),
    ensures
        0 <= at.0 < at.1 < disk_steps(disks).len(),
        disk_steps(disks)[at.0] == (DiskStep::ConfigurePartition {
            disk: disk as usize,
            part: part as usize,
        }),
        disk_steps(disks)[at.1] == (DiskStep::CommitTable { disk: disk as usize }),
{
    let total = disks.len() as int;
    let d = disks[disk];
    let n = d.partitions.len() as int;
    let start = blocks_before(disks, disk).len() as int;
    lemma_disk_block(d, disk);
    let configure = start + 1 + part;
    let commit = start + n + 1;
    lemma_blocks_prefix(disks, disk + 1, total, configure);
    lemma_blocks_prefix(disks, disk + 1, total, commit);
    assert(blocks_before(disks, disk + 1)[configure] == disk_block(d, disk)[1 + part]);
    assert(blocks_before(disks, disk + 1)[commit] == disk_block(d, disk)[n + 1]);
    (configure, commit)
}

} // verus!
