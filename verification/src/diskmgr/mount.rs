//! Mounting: the state of each partition, and the order in which partitions
//! are mounted and unmounted.
//!
//! A partition is either unmounted or mounted, and while it is mounted it
//! holds a [`MountHandle`]. Partitions are mounted in the order of the depth
//! of their mount paths, the shallow ones first, and unmounted the deep ones
//! first: a directory is there before anything is mounted below it, and
//! nothing is left below it when it goes.

use vstd::prelude::*;
use vstd::string::*;
use crate::conf::disk::DiskConfView;
use crate::conf::part::{PartConf, PartConfView};
use crate::conf::seed::SeedConf;
use crate::text::{chars_of, decimal, decimal_string};

verus! {

/// What stands for a live mount: the device that was mounted and the
/// directory it was mounted on. A partition holds one while it is mounted.
#[derive(Debug)]
pub struct MountHandle {
    pub source: String,
    pub target: String,
}

/// The texts of a [`MountHandle`].
pub struct MountHandleView {
    pub source: Seq<char>,
    pub target: Seq<char>,
}

impl View for MountHandle {
    type V = MountHandleView;

    open spec fn view(&self) -> MountHandleView {
        MountHandleView { source: self.source@, target: self.target@ }
    }
}

/// Why a partition cannot be mounted.
#[derive(Debug)]
pub enum MountError {
    /// The description gives no path to mount it at.
    MissingMount,
    /// It is mounted already, on the given directory.
    AlreadyMounted { target: String },
}

/// A [`MountError`] with its path taken by its characters.
pub enum MountErrorView {
    MissingMount,
    AlreadyMounted { target: Seq<char> },
}

impl View for MountError {
    type V = MountErrorView;

    open spec fn view(&self) -> MountErrorView {
        match self {
            MountError::MissingMount => MountErrorView::MissingMount,
            MountError::AlreadyMounted { target } => MountErrorView::AlreadyMounted {
                target: target@,
            },
        }
    }
}

impl MountErrorView {
    /// The error in one line.
    pub open spec fn text(self) -> Seq<char> {
        match self {
            MountErrorView::MissingMount => "PartConf: Missing attribute 'mount'"@,
            MountErrorView::AlreadyMounted { target } => "Mount point "@ + target
                + " is already mounted"@,
        }
    }
}

impl MountError {
    /// The error in one line, as it is shown to the user.
    pub fn to_string(&self) -> (line: String)
        ensures
            line@ == self@.text(),
    {
        match self {
            MountError::MissingMount => String::from_str("PartConf: Missing attribute 'mount'"),
            MountError::AlreadyMounted { target } => String::from_str("Mount point ").concat(
                target.as_str(),
            ).concat(" is already mounted"),
        }
    }

    /// Whether the error says that something is there that should not be.
    pub fn already_exists(&self) -> (yes: bool)
        ensures
            yes == (self@ is AlreadyMounted),
    {
        matches!(self, MountError::AlreadyMounted { .. })
    }
}

/// Whether a component of the path starts at position `i`: a character that
/// is no separator, at the start of the path or after a separator. A lone
/// `.` between separators is no component, except at the start of the path.
pub open spec fn starts_component(path: Seq<char>, i: int) -> bool {
    &&& path[i] != '/'
    &&& (i == 0 || path[i - 1] == '/')
    &&& (i == 0 || !(path[i] == '.' && (i + 1 == path.len() || path[i + 1] == '/')))
}

/// The number of components that start before position `n`.
pub open spec fn components_before(path: Seq<char>, n: int) -> nat
    decreases n,
{
    if n <= 0 {
        0
    } else {
        components_before(path, n - 1) + if starts_component(path, n - 1) {
            1nat
        } else {
            0nat
        }
    }
}

/// The depth of a path: the number of its components, with the root counted
/// as one. So `/` has depth 1, `/boot` depth 2 and `/home/user` depth 3; a
/// doubled or trailing separator adds nothing.
pub open spec fn depth_of(path: Seq<char>) -> nat {
    let root: nat = if path.len() > 0 && path[0] == '/' {
        1
    } else {
        0
    };
    root + components_before(path, path.len() as int)
}

/// The path of the device of a partition: the path of its disk, followed by
/// the number of the partition.
pub open spec fn partition_device(disk: Seq<char>, index: nat) -> Seq<char> {
    disk + decimal(index)
}

/// The path of the device of a partition.
pub fn partition_device_path(disk_path: &str, index: usize) -> (path: String)
    ensures
        path@ == partition_device(disk_path@, index as nat),
{
    String::from_str(disk_path).concat(decimal_string(index).as_str())
}

/// The directory on which a partition with the given mount path is mounted
/// during the installation.
pub open spec fn mount_target(mount: Seq<char>) -> Seq<char> {
    "/root/mount"@ + mount
}

/// No more components start before a position than there are characters
/// before it, and one fewer where the path starts with a separator.
pub proof fn lemma_components_bound(path: Seq<char>, n: int)
    requires
        0 <= n <= path.len(),
    ensures
        components_before(path, n) <= n,
        n > 0 && path[0] == '/' ==> components_before(path, n) <= n - 1,
    decreases n,
{
    if n > 0 {
        lemma_components_bound(path, n - 1);
    }
}

/// The depth of a path: the number of its components, the root included.
pub fn mount_depth(path: &str) -> (depth: usize)
    ensures
        depth == depth_of(path@),
{
    let chars = chars_of(path);
    let mut depth: usize = 0;
    if chars.len() > 0 && chars[0] == '/' {
        depth = 1;
    }
    let mut i: usize = 0;
    while i < chars.len()
        invariant
            chars@ == path@,
            i <= chars.len(),
            depth == (if chars.len() > 0 && chars@[0] == '/' {
                1nat
            } else {
                0nat
            }) + components_before(chars@, i as int),
        decreases chars.len() - i,
    {
        proof {
            lemma_components_bound(chars@, i + 1);
        }
        let here = chars[i];
        let begins = i == 0 || chars[i - 1] == '/';
        let lone_dot = i > 0 && here == '.' && (i + 1 == chars.len() || chars[i + 1] == '/');
        if here != '/' && begins && !lone_dot {
            depth = depth + 1;
        }
        i = i + 1;
    }
    depth
}

impl PartConfView {
    /// The depth of the mount path; 0 where there is none.
    pub open spec fn depth(self) -> nat {
        match self.mount {
            Some(m) => depth_of(m),
            None => 0,
        }
    }

    /// Whether the partition is mounted.
    pub open spec fn mounted(self) -> bool {
        self.mount_point is Some
    }

    /// What is to be mounted where, for a partition on the disk with the
    /// given path; or why the partition cannot be mounted. A partition
    /// without mount path cannot, and neither can one that is mounted.
    pub open spec fn mount_request(self, disk: Seq<char>) -> Result<MountHandleView, MountErrorView> {
        match self.mount {
            None => Err(MountErrorView::MissingMount),
            Some(m) => if self.mounted() {
                Err(MountErrorView::AlreadyMounted { target: mount_target(m) })
            } else {
                Ok(
                    MountHandleView {
                        source: partition_device(disk, self.index),
                        target: mount_target(m),
                    },
                )
            },
        }
    }
}

/// A handle or an error, taken by its view.
pub open spec fn request_view(r: Result<MountHandle, MountError>) -> Result<
    MountHandleView,
    MountErrorView,
> {
    match r {
        Ok(handle) => Ok(handle@),
        Err(e) => Err(e@),
    }
}

impl PartConf {
    /// The depth of the mount path; 0 where there is none.
    pub fn depth(&self) -> (depth: usize)
        ensures
            depth == self@.depth(),
    {
        match &self.mount {
            Some(m) => mount_depth(m.as_str()),
            None => 0,
        }
    }

    /// Whether the partition is mounted.
    pub fn is_mounted(&self) -> (mounted: bool)
        ensures
            mounted == self@.mounted(),
    {
        self.mount_point.is_some()
    }

    /// What the system is to be asked for to mount the partition: the device
    /// and the directory. Nothing changes; [`PartConf::mount`] records the
    /// mount once the system has made it.
    pub fn mount_request(&self, disk_path: &str) -> (r: Result<MountHandle, MountError>)
        ensures
            request_view(r) == self@.mount_request(disk_path@),
    {
        let mount = match &self.mount {
            Some(m) => m,
            None => {
                return Err(MountError::MissingMount);
            },
        };
        let target = String::from_str("/root/mount").concat(mount.as_str());
        if self.mount_point.is_some() {
            return Err(MountError::AlreadyMounted { target });
        }
        let source = partition_device_path(disk_path, self.index);
        Ok(MountHandle { source, target })
    }

    /// Takes the partition from unmounted to mounted: the handle is attached.
    /// A partition without mount path, or one that is mounted already, is
    /// left exactly as it was and the error says which of the two it is.
    pub fn mount(&mut self, disk_path: &str) -> (r: Result<(), MountError>)
        ensures
            match old(self)@.mount_request(disk_path@) {
                Ok(handle) => r is Ok && final(self)@ == (PartConfView {
                    mount_point: Some(handle),
                    ..old(self)@
                }),
                Err(e) => r is Err && r->Err_0@ == e && final(self)@ == old(self)@,
            },
    {
        match self.mount_request(disk_path) {
            Ok(handle) => {
                self.mount_point = Some(handle);
                Ok(())
            },
            Err(e) => Err(e),
        }
    }

    /// Takes the partition to unmounted, and hands out the handle it held.
    /// On a partition that is not mounted this changes nothing and hands out
    /// nothing; it never fails.
    pub fn unmount(&mut self) -> (released: Option<MountHandle>)
        ensures
            final(self)@ == (PartConfView { mount_point: None, ..old(self)@ }),
            match released {
                Some(handle) => old(self)@.mount_point == Some(handle@),
                None => old(self)@.mount_point is None,
            },
            !old(self)@.mounted() ==> final(self)@ == old(self)@ && released is None,
    {
        self.mount_point.take()
    }
}

/// The report of an unmount that failed when the description was given up:
/// nothing can be done about it any more but to say so.
pub open spec fn teardown_text(error: Seq<char>) -> Seq<char> {
    "Failed to unmount remaining partitions! The system may be in a uncontrolled state! (error: "@
        + error + ")"@
}

/// Writes the report of an unmount that failed when the description was
/// given up.
pub fn teardown_failure(error: &str) -> (report: String)
    ensures
        report@ == teardown_text(error@),
{
    String::from_str(
        "Failed to unmount remaining partitions! The system may be in a uncontrolled state! (error: ",
    ).concat(error).concat(")")
}

/// The place of a partition in the description: the position of its disk
/// and its own position on that disk, both counted from 0.
#[derive(Clone, Copy, Debug, PartialEq, Eq, Structural)]
pub struct PartRef {
    pub disk: usize,
    pub part: usize,
}

/// The places of the first `count` partitions of the disk at `disk`.
pub open spec fn disk_refs(disk: int, count: int) -> Seq<PartRef> {
    Seq::new(count as nat, |j: int| PartRef { disk: disk as usize, part: j as usize })
}

/// The places of all partitions of the first `n` disks, in the order of the
/// description.
pub open spec fn refs_before(disks: Seq<DiskConfView>, n: int) -> Seq<PartRef>
    decreases n,
{
    if n <= 0 {
        Seq::empty()
    } else {
        refs_before(disks, n - 1) + disk_refs(n - 1, disks[n - 1].partitions.len() as int)
    }
}

/// The places of all partitions, in the order of the description.
pub open spec fn all_refs(disks: Seq<DiskConfView>) -> Seq<PartRef> {
    refs_before(disks, disks.len() as int)
}

/// The partition at a place.
pub open spec fn part_at(disks: Seq<DiskConfView>, r: PartRef) -> PartConfView {
    disks[r.disk as int].partitions[r.part as int]
}

/// The greatest depth among the partitions at the given places; 0 where
/// there are none.
pub open spec fn max_depth_among(disks: Seq<DiskConfView>, refs: Seq<PartRef>) -> nat
    decreases refs.len(),
{
    if refs.len() == 0 {
        0
    } else {
        let before = max_depth_among(disks, refs.drop_last());
        let last = part_at(disks, refs.last()).depth();
        if last > before {
            last
        } else {
            before
        }
    }
}

/// The greatest depth of a mount path in the description.
pub open spec fn max_depth(disks: Seq<DiskConfView>) -> nat {
    max_depth_among(disks, all_refs(disks))
}

/// The condition of being at depth `d`, and mounted where only the mounted
/// count.
pub open spec fn in_level(disks: Seq<DiskConfView>, d: nat, mounted_only: bool) -> spec_fn(
    PartRef,
) -> bool {
    |r: PartRef| part_at(disks, r).depth() == d && (mounted_only ==> part_at(disks, r).mounted())
}

/// The places of the partitions of one depth, in the order of the
/// description.
pub open spec fn level(disks: Seq<DiskConfView>, d: nat, mounted_only: bool) -> Seq<PartRef> {
    all_refs(disks).filter(in_level(disks, d, mounted_only))
}

/// The partitions of depth 1, then those of depth 2, and so on up to depth
/// `d`.
pub open spec fn mount_levels(disks: Seq<DiskConfView>, d: nat) -> Seq<PartRef>
    decreases d,
{
    if d == 0 {
        Seq::empty()
    } else {
        mount_levels(disks, (d - 1) as nat) + level(disks, d, false)
    }
}

/// The mounted partitions of depth `d`, then those of depth `d - 1`, and so
/// on down to depth 0.
pub open spec fn unmount_levels(disks: Seq<DiskConfView>, d: nat) -> Seq<PartRef>
    decreases d,
{
    if d == 0 {
        level(disks, 0, true)
    } else {
        level(disks, d, true) + unmount_levels(disks, (d - 1) as nat)
    }
}

/// The order in which partitions are mounted: every partition whose mount
/// path has a depth of 1 or more, the shallow ones first, and those of one
/// depth in the order of the description.
pub open spec fn mount_order(disks: Seq<DiskConfView>) -> Seq<PartRef> {
    mount_levels(disks, max_depth(disks))
}

/// The order in which partitions are unmounted: every partition that is
/// mounted, the deep ones first, and those of one depth in the order of the
/// description.
pub open spec fn unmount_order(disks: Seq<DiskConfView>) -> Seq<PartRef> {
    unmount_levels(disks, max_depth(disks))
}

/// What scheduling reads of a partition.
struct Surveyed {
    place: PartRef,
    depth: usize,
    mounted: bool,
}

/// Whether a survey lists the partitions at the given places with their
/// depths and states.
spec fn surveys(entries: Seq<Surveyed>, disks: Seq<DiskConfView>, refs: Seq<PartRef>) -> bool {
    &&& entries.len() == refs.len()
    &&& forall|k: int|
        0 <= k < entries.len() ==> {
            &&& (#[trigger] entries[k]).place == refs[k]
            &&& entries[k].depth == part_at(disks, refs[k]).depth()
            &&& entries[k].mounted == part_at(disks, refs[k]).mounted()
        }
}

/// Appends the places of one level to a schedule.
fn push_level(
    entries: &Vec<Surveyed>,
    depth: usize,
    mounted_only: bool,
    out: &mut Vec<PartRef>,
    Ghost(disks): Ghost<Seq<DiskConfView>>,
)
    requires
        surveys(entries@, disks, all_refs(disks)),
    ensures
        final(out)@ == old(out)@ + level(disks, depth as nat, mounted_only),
{
    let ghost refs = all_refs(disks);
    let ghost wanted = in_level(disks, depth as nat, mounted_only);
    let ghost before = out@;
    let mut k: usize = 0;
    proof {
        reveal(Seq::filter);
        assert(refs.take(0).filter(wanted) =~= Seq::<PartRef>::empty());
    }
    while k < entries.len()
        invariant
            k <= entries.len(),
            refs == all_refs(disks),
            wanted == in_level(disks, depth as nat, mounted_only),
            surveys(entries@, disks, refs),
            out@ == before + refs.take(k as int).filter(wanted),
        decreases entries.len() - k,
    {
        proof {
            assert(refs.take(k + 1) =~= refs.take(k as int).push(refs[k as int]));
            refs.take(k as int).lemma_filter_push(refs[k as int], wanted);
        }
        let entry = &entries[k];
        if entry.depth == depth && (!mounted_only || entry.mounted) {
            out.push(entry.place);
            assert(out@ =~= before + refs.take(k + 1).filter(wanted));
        }
        k = k + 1;
    }
    proof {
        assert(refs.take(k as int) =~= refs);
    }
}

impl SeedConf {
    /// Reads off every partition its place, its depth and its state.
    fn survey(&self) -> (entries: Vec<Surveyed>)
        ensures
            surveys(entries@, self@.disks, all_refs(self@.disks)),
    {
        let ghost disks = self@.disks;
        let mut entries: Vec<Surveyed> = Vec::new();
        let mut i: usize = 0;
        while i < self.disks.len()
            invariant
                i <= self.disks.len(),
                disks == self@.disks,
                disks.len() == self.disks.len(),
                surveys(entries@, disks, refs_before(disks, i as int)),
            decreases self.disks.len() - i,
        {
            let disk = &self.disks[i];
            let ghost head = refs_before(disks, i as int);
            let ghost count = disks[i as int].partitions.len() as int;
            assert(disks[i as int] == self.disks@[i as int]@);
            assert(count == disk.partitions.len());
            let mut j: usize = 0;
            assert(head + disk_refs(i as int, count).take(0) =~= head);
            while j < disk.partitions.len()
                invariant
                    j <= disk.partitions.len(),
                    i < self.disks.len(),
                    disks == self@.disks,
                    disks.len() == self.disks.len(),
                    disks[i as int] == disk@,
                    head == refs_before(disks, i as int),
                    count == disk.partitions.len(),
                    surveys(entries@, disks, head + disk_refs(i as int, count).take(j as int)),
                decreases disk.partitions.len() - j,
            {
                let part = &disk.partitions[j];
                let place = PartRef { disk: i, part: j };
                let ghost listed = head + disk_refs(i as int, count).take(j as int);
                let ghost longer = head + disk_refs(i as int, count).take(j + 1);
                proof {
                    assert(disk@.partitions[j as int] == part@);
                    assert(part_at(disks, place) == part@);
                    assert(longer =~= listed.push(place));
                }
                let ghost entered = entries@;
                entries.push(Surveyed { place, depth: part.depth(), mounted: part.is_mounted() });
                proof {
                    assert forall|k: int| 0 <= k < entries@.len() implies {
                        &&& (#[trigger] entries@[k]).place == longer[k]
                        &&& entries@[k].depth == part_at(disks, longer[k]).depth()
                        &&& entries@[k].mounted == part_at(disks, longer[k]).mounted()
                    } by {
                        if k < entered.len() {
                            assert(entries@[k] == entered[k]);
                            assert(longer[k] == listed[k]);
                        }
                    }
                }
                j = j + 1;
            }
            proof {
                assert(disk_refs(i as int, count).take(j as int) =~= disk_refs(i as int, count));
            }
            i = i + 1;
        }
        entries
    }

    /// The greatest depth of a mount path in the description; 0 where no
    /// partition has one.
    pub fn get_max_mount_depth(&self) -> (depth: usize)
        ensures
            depth == max_depth(self@.disks),
    {
        let entries = self.survey();
        let ghost disks = self@.disks;
        let ghost refs = all_refs(disks);
        let mut depth: usize = 0;
        let mut k: usize = 0;
        while k < entries.len()
            invariant
                k <= entries.len(),
                refs == all_refs(disks),
                surveys(entries@, disks, refs),
                depth == max_depth_among(disks, refs.take(k as int)),
            decreases entries.len() - k,
        {
            proof {
                assert(refs.take(k + 1).drop_last() =~= refs.take(k as int));
                assert(refs.take(k + 1).last() == refs[k as int]);
            }
            if entries[k].depth > depth {
                depth = entries[k].depth;
            }
            k = k + 1;
        }
        proof {
            assert(refs.take(k as int) =~= refs);
        }
        depth
    }

    /// The order in which the partitions are to be mounted: depth by depth
    /// from 1 up to the greatest, and within one depth disk by disk and
    /// partition by partition. A partition without mount path is not in it.
    ///
    /// Nothing is mounted here. Whoever carries the schedule out takes one
    /// place after the other, and stops at the first failure.
    pub fn mount_partitions(&self) -> (schedule: Vec<PartRef>)
        ensures
            schedule@ == mount_order(self@.disks),
    {
        let entries = self.survey();
        let deepest = self.get_max_mount_depth();
        let ghost disks = self@.disks;
        let mut schedule: Vec<PartRef> = Vec::new();
        let mut d: usize = 0;
        while d < deepest
            invariant
                d <= deepest,
                surveys(entries@, disks, all_refs(disks)),
                schedule@ == mount_levels(disks, d as nat),
            decreases deepest - d,
        {
            d = d + 1;
            push_level(&entries, d, false, &mut schedule, Ghost(disks));
        }
        schedule
    }

    /// The order in which the partitions are to be unmounted: depth by depth
    /// from the greatest down, and within one depth disk by disk and
    /// partition by partition. Only partitions that are mounted are in it.
    ///
    /// Nothing is unmounted here. Whoever carries the schedule out takes one
    /// place after the other, and stops at the first failure.
    pub fn unmount_partitions(&self) -> (schedule: Vec<PartRef>)
        ensures
            schedule@ == unmount_order(self@.disks),
    {
        let entries = self.survey();
        let deepest = self.get_max_mount_depth();
        let ghost disks = self@.disks;
        let mut schedule: Vec<PartRef> = Vec::new();
        let mut d: usize = deepest;
        assert(schedule@ + unmount_levels(disks, d as nat) =~= unmount_levels(disks, deepest as nat));
        while d > 0
            invariant
                d <= deepest,
                surveys(entries@, disks, all_refs(disks)),
                schedule@ + unmount_levels(disks, d as nat) == unmount_levels(
                    disks,
                    deepest as nat,
                ),
            decreases d,
        {
            let ghost entered = schedule@;
            push_level(&entries, d, true, &mut schedule, Ghost(disks));
            assert(schedule@ + unmount_levels(disks, (d - 1) as nat) =~= entered + unmount_levels(
                disks,
                d as nat,
            ));
            d = d - 1;
        }
        push_level(&entries, 0, true, &mut schedule, Ghost(disks));
        schedule
    }
}

/// Whether the description is one that a machine can hold: its disks, and
/// the partitions of each, can be counted in a machine word.
pub open spec fn countable(disks: Seq<DiskConfView>) -> bool {
    &&& disks.len() <= usize::MAX
    &&& forall|i: int| 0 <= i < disks.len() ==> (#[trigger] disks[i]).partitions.len() <= usize::MAX
}

/// Whether a place is the place of a partition of the description.
pub open spec fn is_place(disks: Seq<DiskConfView>, r: PartRef) -> bool {
    r.disk < disks.len() && r.part < disks[r.disk as int].partitions.len()
}

/// The places of the first `n` disks are the places of their partitions.
pub proof fn lemma_refs_before_members(disks: Seq<DiskConfView>, n: int, r: PartRef)
    requires
        countable(disks),
        0 <= n <= disks.len(),
    ensures
        refs_before(disks, n).contains(r) <==> is_place(disks, r) && r.disk < n,
    decreases n,
{
    if n > 0 {
        lemma_refs_before_members(disks, n - 1, r);
        let head = refs_before(disks, n - 1);
        let tail = disk_refs(n - 1, disks[n - 1].partitions.len() as int);
        let whole = refs_before(disks, n);
        if whole.contains(r) {
            let k = choose|k: int| 0 <= k < whole.len() && whole[k] == r;
            if k < head.len() {
                assert(head[k] == r);
            } else {
                assert(tail[k - head.len()] == r);
            }
        }
        if is_place(disks, r) && r.disk < n {
            if r.disk < n - 1 {
                let k = choose|k: int| 0 <= k < head.len() && head[k] == r;
                assert(whole[k] == r);
            } else {
                assert(tail[r.part as int] == r);
                assert(whole[head.len() + r.part] == r);
            }
        }
    }
}

/// The schedules speak of every partition of the description and of nothing
/// else.
pub proof fn lemma_all_refs_members(disks: Seq<DiskConfView>, r: PartRef)
    requires
        countable(disks),
    ensures
        all_refs(disks).contains(r) <==> is_place(disks, r),
{
    lemma_refs_before_members(disks, disks.len() as int, r);
}

/// A level holds exactly the partitions that meet its condition.
pub proof fn lemma_level_members(disks: Seq<DiskConfView>, d: nat, mounted_only: bool, r: PartRef)
    ensures
        level(disks, d, mounted_only).contains(r) <==> all_refs(disks).contains(r) && in_level(
            disks,
            d,
            mounted_only,
        )(r),
{
    let refs = all_refs(disks);
    let wanted = in_level(disks, d, mounted_only);
    if refs.filter(wanted).contains(r) {
        refs.lemma_filter_contains_rev(wanted, r);
        let k = choose|k: int| 0 <= k < refs.filter(wanted).len() && refs.filter(wanted)[k] == r;
        refs.lemma_filter_pred(wanted, k);
    }
    if refs.contains(r) && wanted(r) {
        let k = choose|k: int| 0 <= k < refs.len() && refs[k] == r;
        refs.lemma_filter_contains(wanted, k);
    }
}

/// No partition is deeper than the greatest depth.
pub proof fn lemma_max_depth_among(disks: Seq<DiskConfView>, refs: Seq<PartRef>, k: int)
    requires
        0 <= k < refs.len(),
    ensures
        part_at(disks, refs[k]).depth() <= max_depth_among(disks, refs),
    decreases refs.len(),
{
    if k < refs.len() - 1 {
        lemma_max_depth_among(disks, refs.drop_last(), k);
    }
}

/// The levels up to `d` hold exactly the partitions of depth 1 to `d`.
pub proof fn lemma_mount_levels_members(disks: Seq<DiskConfView>, d: nat, r: PartRef)
    ensures
        mount_levels(disks, d).contains(r) <==> all_refs(disks).contains(r) && 1 <= part_at(
            disks,
            r,
        ).depth() <= d,
    decreases d,
{
    if d > 0 {
        let head = mount_levels(disks, (d - 1) as nat);
        let tail = level(disks, d, false);
        let whole = mount_levels(disks, d);
        lemma_mount_levels_members(disks, (d - 1) as nat, r);
        lemma_level_members(disks, d, false, r);
        if whole.contains(r) {
            let k = choose|k: int| 0 <= k < whole.len() && whole[k] == r;
            if k < head.len() {
                assert(head[k] == r);
            } else {
                assert(tail[k - head.len()] == r);
            }
        }
        if head.contains(r) {
            let k = choose|k: int| 0 <= k < head.len() && head[k] == r;
            assert(whole[k] == r);
        }
        if tail.contains(r) {
            let k = choose|k: int| 0 <= k < tail.len() && tail[k] == r;
            assert(whole[head.len() + k] == r);
        }
    }
}

/// The levels from `d` down hold exactly the mounted partitions of depth 0
/// to `d`.
pub proof fn lemma_unmount_levels_members(disks: Seq<DiskConfView>, d: nat, r: PartRef)
    ensures
        unmount_levels(disks, d).contains(r) <==> all_refs(disks).contains(r) && part_at(
            disks,
            r,
        ).mounted() && part_at(disks, r).depth() <= d,
    decreases d,
{
    lemma_level_members(disks, d, true, r);
    if d > 0 {
        let head = level(disks, d, true);
        let tail = unmount_levels(disks, (d - 1) as nat);
        let whole = unmount_levels(disks, d);
        lemma_unmount_levels_members(disks, (d - 1) as nat, r);
        if whole.contains(r) {
            let k = choose|k: int| 0 <= k < whole.len() && whole[k] == r;
            if k < head.len() {
                assert(head[k] == r);
            } else {
                assert(tail[k - head.len()] == r);
            }
        }
        if head.contains(r) {
            let k = choose|k: int| 0 <= k < head.len() && head[k] == r;
            assert(whole[k] == r);
        }
        if tail.contains(r) {
            let k = choose|k: int| 0 <= k < tail.len() && tail[k] == r;
            assert(whole[head.len() + k] == r);
        }
    }
}

/// Mounting leaves out no partition that has somewhere to go: the schedule
/// holds exactly the partitions whose mount path has a depth of 1 or more.
pub proof fn lemma_mount_order_members(disks: Seq<DiskConfView>, r: PartRef)
    ensures
        mount_order(disks).contains(r) <==> all_refs(disks).contains(r) && part_at(
            disks,
            r,
        ).depth() >= 1,
{
    lemma_mount_levels_members(disks, max_depth(disks), r);
    if all_refs(disks).contains(r) {
        let k = choose|k: int| 0 <= k < all_refs(disks).len() && all_refs(disks)[k] == r;
        lemma_max_depth_among(disks, all_refs(disks), k);
    }
}

/// Unmounting leaves nothing mounted behind: the schedule holds exactly the
/// partitions that are mounted.
pub proof fn lemma_unmount_order_members(disks: Seq<DiskConfView>, r: PartRef)
    ensures
        unmount_order(disks).contains(r) <==> all_refs(disks).contains(r) && part_at(
            disks,
            r,
        ).mounted(),
{
    lemma_unmount_levels_members(disks, max_depth(disks), r);
    if all_refs(disks).contains(r) {
        let k = choose|k: int| 0 <= k < all_refs(disks).len() && all_refs(disks)[k] == r;
        lemma_max_depth_among(disks, all_refs(disks), k);
    }
}

/// In the levels up to `d`, no partition comes before a shallower one.
pub proof fn lemma_mount_levels_sorted(disks: Seq<DiskConfView>, d: nat, i: int, j: int)
    requires
        0 <= i <= j < mount_levels(disks, d).len(),
    ensures
        part_at(disks, mount_levels(disks, d)[i]).depth() <= part_at(
            disks,
            mount_levels(disks, d)[j],
        ).depth() <= d,
    decreases d,
{
    if d > 0 {
        let head = mount_levels(disks, (d - 1) as nat);
        let tail = level(disks, d, false);
        let wanted = in_level(disks, d, false);
        if j < head.len() {
            lemma_mount_levels_sorted(disks, (d - 1) as nat, i, j);
        } else {
            all_refs(disks).lemma_filter_pred(wanted, j - head.len());
            if i < head.len() {
                lemma_mount_levels_sorted(disks, (d - 1) as nat, i, i);
            } else {
                all_refs(disks).lemma_filter_pred(wanted, i - head.len());
            }
        }
    }
}

/// In the levels from `d` down, no partition comes before a deeper one.
pub proof fn lemma_unmount_levels_sorted(disks: Seq<DiskConfView>, d: nat, i: int, j: int)
    requires
        0 <= i <= j < unmount_levels(disks, d).len(),
    ensures
        d >= part_at(disks, unmount_levels(disks, d)[i]).depth() >= part_at(
            disks,
            unmount_levels(disks, d)[j],
        ).depth(),
    decreases d,
{
    let head = level(disks, d, true);
    let wanted = in_level(disks, d, true);
    if d == 0 {
        all_refs(disks).lemma_filter_pred(wanted, i);
        all_refs(disks).lemma_filter_pred(wanted, j);
    } else {
        if i < head.len() {
            all_refs(disks).lemma_filter_pred(wanted, i);
            if j < head.len() {
                all_refs(disks).lemma_filter_pred(wanted, j);
            } else {
                lemma_unmount_levels_sorted(
                    disks,
                    (d - 1) as nat,
                    j - head.len(),
                    j - head.len(),
                );
            }
        } else {
            lemma_unmount_levels_sorted(disks, (d - 1) as nat, i - head.len(), j - head.len());
        }
    }
}

/// A parent is mounted before its children: in the order of mounting no
/// partition comes before one whose mount path is shallower.
pub proof fn lemma_mount_order_sorted(disks: Seq<DiskConfView>, i: int, j: int)
    requires
        0 <= i <= j < mount_order(disks).len(),
    ensures
        part_at(disks, mount_order(disks)[i]).depth() <= part_at(
            disks,
            mount_order(disks)[j],
        ).depth(),
{
    lemma_mount_levels_sorted(disks, max_depth(disks), i, j);
}

/// Children are unmounted before their parent: in the order of unmounting
/// no partition comes before one whose mount path is deeper.
pub proof fn lemma_unmount_order_sorted(disks: Seq<DiskConfView>, i: int, j: int)
    requires
        0 <= i <= j < unmount_order(disks).len(),
    ensures
        part_at(disks, unmount_order(disks)[i]).depth() >= part_at(
            disks,
            unmount_order(disks)[j],
        ).depth(),
{
    lemma_unmount_levels_sorted(disks, max_depth(disks), i, j);
}

/// Unmounting mirrors mounting: of two partitions of different depths, the
/// shallower is mounted first and unmounted last.
pub proof fn lemma_unmount_mirrors_mount(
    disks: Seq<DiskConfView>,
    shallow: PartRef,
    deep: PartRef,
    i: int,
    j: int,
    k: int,
    l: int,
)
    requires
        part_at(disks, shallow).depth() < part_at(disks, deep).depth(),
        0 <= i < mount_order(disks).len() && mount_order(disks)[i] == shallow,
        0 <= j < mount_order(disks).len() && mount_order(disks)[j] == deep,
        0 <= k < unmount_order(disks).len() && unmount_order(disks)[k] == shallow,
        0 <= l < unmount_order(disks).len() && unmount_order(disks)[l] == deep,
    ensures
        i < j,
        l < k,
{
    if j <= i {
        lemma_mount_order_sorted(disks, j, i);
    }
    if k <= l {
        lemma_unmount_order_sorted(disks, k, l);
    }
}

/// A partition in the order of mounting is never refused for want of a
/// mount path: only partitions that have one are scheduled, and for one that
/// is not mounted the request is what is asked of the system.
pub proof fn lemma_scheduled_has_mount(disks: Seq<DiskConfView>, k: int)
    requires
        0 <= k < mount_order(disks).len(),
    ensures
        part_at(disks, mount_order(disks)[k]).mount is Some,
        !part_at(disks, mount_order(disks)[k]).mounted() ==> part_at(
            disks,
            mount_order(disks)[k],
        ).mount_request(disks[mount_order(disks)[k].disk as int].path) is Ok,
{
    let r = mount_order(disks)[k];
    assert(mount_order(disks).contains(r));
    lemma_mount_order_members(disks, r);
}

} // verus!
