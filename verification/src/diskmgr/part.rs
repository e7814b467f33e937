//! Planning partitions: what is to be done to the partition table for one
//! partition of the description, given what the table holds.

use vstd::prelude::*;
use vstd::string::*;
use crate::conf::part::{PartAction, PartConf, PartConfView};
use crate::diskmgr::util::{
    ceil_div, checked_part_size_sectors, get_next_possible_start, lemma_ceil_div_holds,
    next_start, size_bytes,
};
use crate::search::{first_index, is_first, lemma_first_index_is, lemma_first_index_none};
use crate::text::{decimal, decimal_string};

verus! {

/// A partition that the table of a disk holds.
#[derive(Debug)]
pub struct PartEntry {
    /// Its number in the table.
    pub num: u32,
    /// Its first sector.
    pub start: i64,
    /// Its last sector.
    pub end: i64,
    /// The path of its device.
    pub path: String,
}

/// The partition table of a disk, as far as planning reads it. Should two
/// entries carry one number, the first of them counts.
#[derive(Debug)]
pub struct DiskLayout {
    pub partitions: Vec<PartEntry>,
}

/// A [`PartEntry`] with its path taken by its characters.
pub struct PartEntryView {
    pub num: nat,
    pub start: int,
    pub end: int,
    pub path: Seq<char>,
}

impl View for PartEntry {
    type V = PartEntryView;

    open spec fn view(&self) -> PartEntryView {
        PartEntryView {
            num: self.num as nat,
            start: self.start as int,
            end: self.end as int,
            path: self.path@,
        }
    }
}

impl View for DiskLayout {
    type V = Seq<PartEntryView>;

    open spec fn view(&self) -> Seq<PartEntryView> {
        self.partitions@.map_values(|e: PartEntry| e@)
    }
}

/// What is to be done to the table for one partition of the description.
#[derive(Debug)]
pub enum PartitionPlan {
    /// A partition is added that spans the given sectors.
    Create { start: i64, end: i64 },
    /// Nothing: the partition is there, at the given device path.
    Existing { path: String },
}

/// Why nothing can be planned for a partition.
#[derive(Debug)]
pub enum PlanError {
    /// The partition is to be created and its number is taken.
    AlreadyExists { index: usize, path: String },
    /// No sector is left after the last partition.
    NoStart,
    /// The partition is to be created and no size is given.
    MissingSize { index: usize },
    /// The size, or the last sector it leads to, is beyond 63 bits.
    TooLarge { index: usize },
    /// The partition is to be kept or formatted and is not there.
    NotFound { index: usize },
    /// Nothing is implemented for the action.
    NotImplemented { action: PartAction },
}

/// A [`PartitionPlan`] with its path taken by its characters.
pub enum PartitionPlanView {
    Create { start: int, end: int },
    Existing { path: Seq<char> },
}

/// A [`PlanError`] with its path taken by its characters.
pub enum PlanErrorView {
    AlreadyExists { index: nat, path: Seq<char> },
    NoStart,
    MissingSize { index: nat },
    TooLarge { index: nat },
    NotFound { index: nat },
    NotImplemented { action: PartAction },
}

impl View for PartitionPlan {
    type V = PartitionPlanView;

    open spec fn view(&self) -> PartitionPlanView {
        match self {
            PartitionPlan::Create { start, end } => PartitionPlanView::Create {
                start: *start as int,
                end: *end as int,
            },
            PartitionPlan::Existing { path } => PartitionPlanView::Existing { path: path@ },
        }
    }
}

impl View for PlanError {
    type V = PlanErrorView;

    open spec fn view(&self) -> PlanErrorView {
        match self {
            PlanError::AlreadyExists { index, path } => PlanErrorView::AlreadyExists {
                index: *index as nat,
                path: path@,
            },
            PlanError::NoStart => PlanErrorView::NoStart,
            PlanError::MissingSize { index } => PlanErrorView::MissingSize { index: *index as nat },
            PlanError::TooLarge { index } => PlanErrorView::TooLarge { index: *index as nat },
            PlanError::NotFound { index } => PlanErrorView::NotFound { index: *index as nat },
            PlanError::NotImplemented { action } => PlanErrorView::NotImplemented {
                action: *action,
            },
        }
    }
}

impl PlanErrorView {
    /// The error in one line.
    pub open spec fn text(self) -> Seq<char> {
        match self {
            PlanErrorView::AlreadyExists { index, path } => "Can't create partition "@ + decimal(
                index,
            ) + ": Already exists at "@ + path,
            PlanErrorView::NoStart => "Unable to determine start of new partition"@,
            PlanErrorView::MissingSize { index } => "Can't create partition "@ + decimal(index)
                + ": No size given"@,
            PlanErrorView::TooLarge { index } => "Can't create partition "@ + decimal(index)
                + ": Size too large"@,
            PlanErrorView::NotFound { index } => "Could not find partition with index "@
                + decimal(index),
            PlanErrorView::NotImplemented { action } => "Partition action '"@ + action.label()
                + "': Not yet implemented"@,
        }
    }
}

impl PlanError {
    /// The error in one line, as it is shown to the user.
    pub fn to_string(&self) -> (line: String)
        ensures
            line@ == self@.text(),
    {
        match self {
            PlanError::AlreadyExists { index, path } => String::from_str(
                "Can't create partition ",
            ).concat(decimal_string(*index).as_str()).concat(": Already exists at ").concat(
                path.as_str(),
            ),
            PlanError::NoStart => String::from_str("Unable to determine start of new partition"),
            PlanError::MissingSize { index } => String::from_str("Can't create partition ").concat(
                decimal_string(*index).as_str(),
            ).concat(": No size given"),
            PlanError::TooLarge { index } => String::from_str("Can't create partition ").concat(
                decimal_string(*index).as_str(),
            ).concat(": Size too large"),
            PlanError::NotFound { index } => String::from_str(
                "Could not find partition with index ",
            ).concat(decimal_string(*index).as_str()),
            PlanError::NotImplemented { action } => String::from_str("Partition action '").concat(
                action.name(),
            ).concat("': Not yet implemented"),
        }
    }

    /// Whether the error says that something is there that should not be.
    pub fn already_exists(&self) -> (yes: bool)
        ensures
            yes == (self@ is AlreadyExists),
    {
        matches!(self, PlanError::AlreadyExists { .. })
    }
}

/// The position in the table of the partition with the given number.
pub open spec fn find_partition(table: Seq<PartEntryView>, num: nat) -> Option<int> {
    first_index(table, |e: PartEntryView| e.num == num)
}

/// What is to be done for a partition, given the table and the size of a
/// sector.
///
/// To create: the number must be free, the partition starts where the table
/// says the next may start and ends as many sectors later as its size asks
/// for. To keep or to format: the partition must be there. To resize is not
/// implemented.
pub open spec fn plan_partition(table: Seq<PartEntryView>, p: PartConfView, sector_size: int) -> Result<
    PartitionPlanView,
    PlanErrorView,
> {
    match p.action {
        PartAction::Create => match find_partition(table, p.index) {
            Some(i) => Err(PlanErrorView::AlreadyExists { index: p.index, path: table[i].path }),
            None => match next_start(table) {
                None => Err(PlanErrorView::NoStart),
                Some(start) => match p.size {
                    None => Err(PlanErrorView::MissingSize { index: p.index }),
                    Some(size) => {
                        let end = start + ceil_div(size_bytes(size), sector_size);
                        if size_bytes(size) <= i64::MAX && end <= i64::MAX {
                            Ok(PartitionPlanView::Create { start, end })
                        } else {
                            Err(PlanErrorView::TooLarge { index: p.index })
                        }
                    },
                },
            },
        },
        PartAction::Keep | PartAction::Format => match find_partition(table, p.index) {
            Some(i) => Ok(PartitionPlanView::Existing { path: table[i].path }),
            None => Err(PlanErrorView::NotFound { index: p.index }),
        },
        PartAction::Resize => Err(PlanErrorView::NotImplemented { action: p.action }),
    }
}

/// A plan or an error, taken by its view.
pub open spec fn plan_view(r: Result<PartitionPlan, PlanError>) -> Result<
    PartitionPlanView,
    PlanErrorView,
> {
    match r {
        Ok(plan) => Ok(plan@),
        Err(e) => Err(e@),
    }
}

impl DiskLayout {
    /// The partition with the given number, where the table holds one.
    pub fn get_partition(&self, num: usize) -> (r: Option<&PartEntry>)
        ensures
            match find_partition(self@, num as nat) {
                Some(i) => r is Some && r->0@ == self@[i],
                None => r is None,
            },
    {
        let ghost wanted = |e: PartEntryView| e.num == num as nat;
        let mut i: usize = 0;
        while i < self.partitions.len()
            invariant
                i <= self.partitions.len(),
                self@.len() == self.partitions.len(),
                wanted == (|e: PartEntryView| e.num == num as nat),
                forall|j: int| 0 <= j < i ==> !wanted(#[trigger] self@[j]),
            decreases self.partitions.len() - i,
        {
            assert(self@[i as int] == self.partitions@[i as int]@);
            if self.partitions[i].num as usize == num {
                proof {
                    assert(is_first(self@, wanted, i as int));
                    lemma_first_index_is(self@, wanted, i as int);
                }
                return Some(&self.partitions[i]);
            }
            i = i + 1;
        }
        proof {
            lemma_first_index_none(self@, wanted);
        }
        None
    }
}

/// Plans what is to be done to the table of a disk for one partition of the
/// description. Nothing is changed: the plan is carried out by whoever holds
/// the disk.
pub fn configure_partitions(disk: &DiskLayout, p_conf: &PartConf, sector_size: u64) -> (r: Result<
    PartitionPlan,
    PlanError,
>)
    requires
        sector_size > 0,
    ensures
        plan_view(r) == plan_partition(disk@, p_conf@, sector_size as int),
{
    match p_conf.action {
        PartAction::Create => {
            match disk.get_partition(p_conf.index) {
                Some(entry) => {
                    return Err(
                        PlanError::AlreadyExists { index: p_conf.index, path: entry.path.clone() },
                    );
                },
                None => {},
            }
            let start = match get_next_possible_start(disk) {
                Some(start) => start,
                None => {
                    return Err(PlanError::NoStart);
                },
            };
            let size = match &p_conf.size {
                Some(size) => size,
                None => {
                    return Err(PlanError::MissingSize { index: p_conf.index });
                },
            };
            proof {
                if size_bytes(*size) <= i64::MAX {
                    assert(size_bytes(*size) >= 0) by {
                        crate::diskmgr::util::lemma_size_bytes_positive(*size);
                    }
                    lemma_ceil_div_holds(size_bytes(*size), sector_size as int);
                }
            }
            match checked_part_size_sectors(size, sector_size) {
                Some(sectors) => match start.checked_add(sectors) {
                    Some(end) => Ok(PartitionPlan::Create { start, end }),
                    None => Err(PlanError::TooLarge { index: p_conf.index }),
                },
                None => Err(PlanError::TooLarge { index: p_conf.index }),
            }
        },
        PartAction::Keep | PartAction::Format => match disk.get_partition(p_conf.index) {
            Some(entry) => Ok(PartitionPlan::Existing { path: entry.path.clone() }),
            None => Err(PlanError::NotFound { index: p_conf.index }),
        },
        PartAction::Resize => Err(PlanError::NotImplemented { action: p_conf.action }),
    }
}

/// A partition that has passed validation is never refused for want of a
/// size: where it is to be created, it names one.
pub proof fn lemma_validated_has_size(table: Seq<PartEntryView>, p: PartConfView, sector_size: int)
    requires
        p.broken_rule() is None,
    ensures
        plan_partition(table, p, sector_size) != Err::<PartitionPlanView, PlanErrorView>(
            PlanErrorView::MissingSize { index: p.index },
        ),
{
}

} // verus!
