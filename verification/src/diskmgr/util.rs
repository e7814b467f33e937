//! Sizes in sectors, and the sector at which the next partition may start.

use vstd::prelude::*;
use vstd::string::*;
use crate::conf::size::{data_size_bytes, DataSize, PartSize};
use crate::diskmgr::part::{DiskLayout, PartEntryView};
use crate::search::{first_index, is_first, lemma_first_index_is};

verus! {

/// The least number of pieces of size `unit` that together hold `amount`.
pub open spec fn ceil_div(amount: int, unit: int) -> int {
    if amount % unit == 0 {
        amount / unit
    } else {
        amount / unit + 1
    }
}

/// The pieces that [`ceil_div`] counts hold the amount, and one piece less
/// would not; they are never more than the amount itself.
pub proof fn lemma_ceil_div_holds(amount: int, unit: int)
    requires
        amount >= 0,
        unit > 0,
    ensures
        ceil_div(amount, unit) * unit >= amount,
        amount > 0 ==> (ceil_div(amount, unit) - 1) * unit < amount,
        0 <= ceil_div(amount, unit) <= amount,
{
    let q = amount / unit;
    let r = amount % unit;
    assert(amount == q * unit + r && 0 <= r < unit) by (nonlinear_arith)
        requires
            q == amount / unit,
            r == amount % unit,
            unit > 0,
    ;
    assert(q >= 0 && q <= amount) by (nonlinear_arith)
        requires
            amount == q * unit + r,
            0 <= r < unit,
            amount >= 0,
            unit > 0,
    ;
    assert((q + 1) * unit == q * unit + unit) by (nonlinear_arith);
    assert((q - 1) * unit == q * unit - unit) by (nonlinear_arith);
    if r != 0 {
        assert(q + 1 <= amount) by (nonlinear_arith)
            requires
                amount == q * unit + r,
                0 < r < unit,
                q >= 0,
        ;
    }
}

/// No smaller number of pieces holds the amount than [`ceil_div`] counts.
pub proof fn lemma_ceil_div_least(amount: int, unit: int, n: int)
    requires
        amount >= 0,
        unit > 0,
        n * unit >= amount,
    ensures
        n >= ceil_div(amount, unit),
{
    lemma_ceil_div_holds(amount, unit);
    let c = ceil_div(amount, unit);
    if amount == 0 {
        assert(n >= 0) by (nonlinear_arith)
            requires
                n * unit >= 0,
                unit > 0,
        ;
    } else if n < c {
        assert(n * unit <= (c - 1) * unit) by (nonlinear_arith)
            requires
                n <= c - 1,
                unit > 0,
        ;
    }
}

/// The bytes that a size asks for where it is given in units of data; a
/// size that only the planner can resolve stands for a single byte.
pub open spec fn size_bytes(size: PartSize) -> int {
    match size {
        PartSize::Size(count, unit) => count * unit.factor(),
        _ => 1,
    }
}

/// A size never asks for less than nothing.
pub proof fn lemma_size_bytes_positive(size: PartSize)
    ensures
        size_bytes(size) >= 0,
{
    match size {
        PartSize::Size(count, unit) => {
            assert(0 <= count * unit.factor()) by (nonlinear_arith)
                requires
                    count >= 0,
                    unit.factor() >= 1,
            ;
        },
        _ => {},
    }
}

/// Whether no partition of the table carries a higher number than `num`.
pub open spec fn is_highest(table: Seq<PartEntryView>, num: nat) -> bool {
    forall|j: int| 0 <= j < table.len() ==> (#[trigger] table[j]).num <= num
}

/// The position of the last partition of a table: the one with the highest
/// number.
pub open spec fn last_partition(table: Seq<PartEntryView>) -> Option<int> {
    first_index(table, |e: PartEntryView| is_highest(table, e.num))
}

/// The sector at which the next partition may start: sector 0 on an empty
/// table, else the sector after the end of the last partition. `None` where
/// the last partition ends at the highest sector that 63 bits count.
pub open spec fn next_start(table: Seq<PartEntryView>) -> Option<int> {
    match last_partition(table) {
        None => Some(0),
        Some(i) => if table[i].end < i64::MAX {
            Some(table[i].end + 1)
        } else {
            None
        },
    }
}

/// A table that holds a partition has a last one.
pub proof fn lemma_last_partition_exists(table: Seq<PartEntryView>)
    ensures
        last_partition(table) is None <==> table.len() == 0,
    decreases table.len(),
{
    let highest = |e: PartEntryView| is_highest(table, e.num);
    crate::search::lemma_first_index_found(table, highest);
    if table.len() > 0 && last_partition(table) is None {
        let top = lemma_highest_exists(table, table.len() as int);
        assert(highest(table[top]));
    }
}

proof fn lemma_highest_exists(table: Seq<PartEntryView>, n: int) -> (top: int)
    requires
        0 < n <= table.len(),
    ensures
        0 <= top < n,
        forall|j: int| 0 <= j < n ==> (#[trigger] table[j]).num <= table[top].num,
    decreases n,
{
    if n == 1 {
        0
    } else {
        let before = lemma_highest_exists(table, n - 1);
        if table[n - 1].num > table[before].num {
            n - 1
        } else {
            before
        }
    }
}

/// The sector at which the next partition of a disk may start.
pub fn get_next_possible_start(p_disk: &DiskLayout) -> (start: Option<i64>)
    ensures
        match start {
            Some(sector) => next_start(p_disk@) == Some(sector as int),
            None => next_start(p_disk@) is None,
        },
{
    let ghost table = p_disk@;
    let ghost highest = |e: PartEntryView| is_highest(table, e.num);
    if p_disk.partitions.len() == 0 {
        proof {
            lemma_last_partition_exists(table);
        }
        return Some(0);
    }
    let mut last: usize = 0;
    let mut i: usize = 1;
    assert(table[0] == p_disk.partitions@[0]@);
    while i < p_disk.partitions.len()
        invariant
            table == p_disk@,
            table.len() == p_disk.partitions.len(),
            0 <= last < i <= p_disk.partitions.len(),
            forall|j: int| 0 <= j < i ==> (#[trigger] table[j]).num <= table[last as int].num,
            forall|j: int| 0 <= j < last ==> (#[trigger] table[j]).num < table[last as int].num,
        decreases p_disk.partitions.len() - i,
    {
        assert(table[i as int] == p_disk.partitions@[i as int]@);
        assert(table[last as int] == p_disk.partitions@[last as int]@);
        if p_disk.partitions[i].num > p_disk.partitions[last].num {
            last = i;
        }
        i = i + 1;
    }
    proof {
        assert(table[last as int] == p_disk.partitions@[last as int]@);
        assert(is_highest(table, table[last as int].num));
        assert forall|j: int| 0 <= j < last implies !highest(#[trigger] table[j]) by {
            assert(table[last as int].num > table[j].num);
        }
        assert(is_first(table, highest, last as int));
        lemma_first_index_is(table, highest, last as int);
    }
    let end = p_disk.partitions[last].end;
    if end < 0x7fff_ffff_ffff_ffff {
        Some(end + 1)
    } else {
        None
    }
}

/// The number of sectors that hold the given number of bytes: a sector that
/// is begun counts as a whole one.
pub fn bytes_to_sectors(bytes: u64, sector_size: u64) -> (sectors: u64)
    requires
        sector_size > 0,
    ensures
        sectors == ceil_div(bytes as int, sector_size as int),
        sectors * sector_size >= bytes,
        bytes > 0 ==> (sectors - 1) * sector_size < bytes,
{
    let whole = bytes / sector_size;
    proof {
        lemma_ceil_div_holds(bytes as int, sector_size as int);
    }
    if bytes % sector_size == 0 {
        whole
    } else {
        whole + 1
    }
}

/// The number of sectors that a size asks for. A size in units of data is
/// rounded up to whole sectors; any other size stands for one sector until
/// the planner resolves it.
pub fn get_part_size_sectors(p_size: &PartSize, sector_size: u64) -> (sectors: i64)
    requires
        sector_size > 0,
        size_bytes(*p_size) <= i64::MAX,
    ensures
        sectors == ceil_div(size_bytes(*p_size), sector_size as int),
{
    let bytes: u64 = match p_size {
        PartSize::Size(count, unit) => {
            assert(0 <= *count * unit.factor()) by (nonlinear_arith)
                requires
                    *count >= 0,
                    unit.factor() >= 1,
            ;
            data_size_bytes(*count as i64, unit) as u64
        },
        _ => 1,
    };
    proof {
        lemma_ceil_div_holds(bytes as int, sector_size as int);
    }
    bytes_to_sectors(bytes, sector_size) as i64
}

/// The number of sectors that a size asks for, where the bytes it stands for
/// can be counted in 63 bits; `None` where they cannot.
pub fn checked_part_size_sectors(p_size: &PartSize, sector_size: u64) -> (sectors: Option<i64>)
    requires
        sector_size > 0,
    ensures
        sectors == (if size_bytes(*p_size) <= i64::MAX {
            Some(ceil_div(size_bytes(*p_size), sector_size as int) as i64)
        } else {
            None
        }),
{
    let fits = match p_size {
        PartSize::Size(count, unit) => {
            let limit: u32 = match unit {
                DataSize::TB => 8388607,
                _ => 0xffff_ffff,
            };
            proof {
                let c = *count as int;
                let f = unit.factor();
                if *unit == DataSize::TB {
                    assert(c <= 8388607 ==> c * f <= i64::MAX) by (nonlinear_arith)
                        requires
                            f == 1099511627776,
                            c >= 0,
                    ;
                    assert(c > 8388607 ==> c * f > i64::MAX) by (nonlinear_arith)
                        requires
                            f == 1099511627776,
                    ;
                } else {
                    assert(c * f <= i64::MAX) by (nonlinear_arith)
                        requires
                            0 <= c <= 0xffff_ffff,
                            1 <= f <= 1073741824,
                    ;
                }
            }
            *count <= limit
        },
        _ => true,
    };
    if fits {
        proof {
            lemma_ceil_div_holds(size_bytes(*p_size), sector_size as int);
        }
        Some(get_part_size_sectors(p_size, sector_size))
    } else {
        None
    }
}

} // verus!
