//! Disks: what may be done to one, its partitions, and the rules that hold
//! of a disk as a whole.

use vstd::prelude::*;
use vstd::string::*;
use crate::conf::part::{IgnoredField, PartAction, PartConf, PartConfView};
use crate::conf::validate::{Validate, ValidationError, ValidationErrorView};
use crate::search::{
    first_index, is_first, lemma_first_index_found, lemma_first_index_is, lemma_first_index_none,
};
use crate::text::{
    decimal, decimal_string, invalid_variant, invalid_variant_text, lowercase, str_eq,
    text_option, text_result,
};

verus! {

/// What is to be done to a disk.
#[derive(Clone, Copy, Debug, PartialEq, Eq, Structural)]
pub enum DiskAction {
    /// Nothing on it may change.
    Locked,
    /// Its partition table stays; partitions may be formatted.
    Keep,
    /// Its partition table stays; partitions may be added and changed.
    Alter,
    /// It gets a new partition table.
    New,
}

/// The action that a lower-case name stands for.
pub open spec fn disk_action_of(name: Seq<char>) -> Option<DiskAction> {
    if name == "locked"@ {
        Some(DiskAction::Locked)
    } else if name == "keep"@ {
        Some(DiskAction::Keep)
    } else if name == "alter"@ {
        Some(DiskAction::Alter)
    } else if name == "new"@ {
        Some(DiskAction::New)
    } else {
        None
    }
}

/// The names of the disk actions, as the messages list them.
pub open spec fn disk_actions_text() -> Seq<char> {
    "[\"locked\", \"keep\", \"alter\", \"new\"]"@
}

/// The action that a lower-case name stands for, or the message that says
/// that it stands for none.
pub open spec fn disk_action_from(name: Seq<char>) -> Result<DiskAction, Seq<char>> {
    match disk_action_of(name) {
        Some(action) => Ok(action),
        None => Err(invalid_variant_text("DiskAction"@, name, disk_actions_text())),
    }
}

/// Matches the lower-case name of an action to the action; hands the name
/// back where it is none.
pub fn match_disk_action(value: &str) -> (r: Result<DiskAction, &str>)
    ensures
        match disk_action_of(value@) {
            Some(action) => r == Ok::<DiskAction, &str>(action),
            None => r == Err::<DiskAction, &str>(value),
        },
{
    if str_eq(value, "locked") {
        Ok(DiskAction::Locked)
    } else if str_eq(value, "keep") {
        Ok(DiskAction::Keep)
    } else if str_eq(value, "alter") {
        Ok(DiskAction::Alter)
    } else if str_eq(value, "new") {
        Ok(DiskAction::New)
    } else {
        Err(value)
    }
}

impl DiskAction {
    /// The action with the given lower-case name.
    pub fn from_name(name: &str) -> (r: Result<DiskAction, String>)
        ensures
            text_result(r) == disk_action_from(name@),
    {
        match match_disk_action(name) {
            Ok(action) => Ok(action),
            Err(other) => Err(
                invalid_variant("DiskAction", other, "[\"locked\", \"keep\", \"alter\", \"new\"]"),
            ),
        }
    }

    /// Reads an action from its name, written in any case of letters.
    pub fn parse(value: &str) -> (r: Result<DiskAction, String>)
        ensures
            text_result(r) == disk_action_from(lowercase(value@)),
    {
        let name = value.to_lowercase();
        DiskAction::from_name(name.as_str())
    }
}

/// A disk as the description gives it.
#[derive(Debug)]
pub struct DiskConf {
    /// The path of the device.
    pub path: String,
    pub action: DiskAction,
    /// The type of the partition table to make; of use only where the action
    /// is `New`.
    pub table: Option<String>,
    /// The partitions, in the order of the description.
    pub partitions: Vec<PartConf>,
}

/// A [`DiskConf`] with its texts taken by their characters.
pub struct DiskConfView {
    pub path: Seq<char>,
    pub action: DiskAction,
    pub table: Option<Seq<char>>,
    pub partitions: Seq<PartConfView>,
}

impl View for DiskConf {
    type V = DiskConfView;

    open spec fn view(&self) -> DiskConfView {
        DiskConfView {
            path: self.path@,
            action: self.action,
            table: text_option(self.table),
            partitions: self.partitions@.map_values(|p: PartConf| p@),
        }
    }
}

/// Something that the description says and that has no effect: on the disk
/// itself, or on the partition at a position counted from 1.
#[derive(Clone, Copy, Debug, PartialEq, Eq, Structural)]
pub struct Warning {
    pub partition: Option<usize>,
    pub field: IgnoredField,
}

impl IgnoredField {
    /// The name of the field in the description.
    pub open spec fn name(self) -> Seq<char> {
        match self {
            IgnoredField::Table => "table"@,
            IgnoredField::Size => "size"@,
            IgnoredField::Fs => "fs"@,
        }
    }
}

impl Warning {
    /// The warning in one line: the path of the disk, or the position of the
    /// partition, and the field that is ignored.
    pub open spec fn text(self, disk: Seq<char>) -> Seq<char> {
        let place = match self.partition {
            Some(n) => "Partition "@ + decimal(n as nat),
            None => disk,
        };
        place + ": Ignoring '"@ + self.field.name() + "': Not allowed in this mode"@
    }

    /// The warning in one line, for the disk with the given path.
    pub fn message(&self, disk: &str) -> (line: String)
        ensures
            line@ == self.text(disk@),
    {
        let place = match self.partition {
            Some(n) => String::from_str("Partition ").concat(decimal_string(n).as_str()),
            None => String::from_str(disk),
        };
        let name = match self.field {
            IgnoredField::Table => "table",
            IgnoredField::Size => "size",
            IgnoredField::Fs => "fs",
        };
        place.concat(": Ignoring '").concat(name).concat("': Not allowed in this mode")
    }
}

/// The message of the rule that a new partition table needs its type.
pub open spec fn table_required_text() -> Seq<char> {
    "'table' field is required when disk action is 'new'"@
}

/// The message of the rule that a locked disk keeps its partitions.
pub open spec fn locked_text() -> Seq<char> {
    "Partition action must be 'keep' if disk action is 'locked'"@
}

/// The warnings for the first `n` partitions of a disk, in their order.
pub open spec fn partition_warnings(parts: Seq<PartConfView>, n: int) -> Seq<Warning>
    decreases n,
{
    if n <= 0 {
        Seq::empty()
    } else {
        partition_warnings(parts, n - 1) + parts[n - 1].ignored().map_values(
            |field: IgnoredField| Warning { partition: Some(n as usize), field },
        )
    }
}

impl DiskConfView {
    /// Whether a new partition table is asked for and its type is not given.
    pub open spec fn table_missing(self) -> bool {
        self.action == DiskAction::New && self.table is None
    }

    /// The position of the first partition that is not kept as it is.
    pub open spec fn first_altered(self) -> Option<int> {
        first_index(self.partitions, |p: PartConfView| p.action != PartAction::Keep)
    }

    /// The position of the first partition that breaks a rule of its own.
    pub open spec fn first_broken(self) -> Option<int> {
        first_index(self.partitions, |p: PartConfView| p.broken_rule() is Some)
    }

    /// Whether a rule of the disk as a whole is broken: the table type is
    /// missing, or the disk is locked and a partition is to change.
    pub open spec fn disk_rule_broken(self) -> bool {
        self.table_missing() || (self.action == DiskAction::Locked && self.first_altered() is Some)
    }

    /// How many partitions validation gets to number: none where a rule of
    /// the disk is broken, else all up to the first that breaks a rule.
    pub open spec fn numbered(self) -> int {
        if self.disk_rule_broken() {
            0
        } else {
            match self.first_broken() {
                Some(k) => k + 1,
                None => self.partitions.len() as int,
            }
        }
    }

    /// The disk with its first `n` partitions numbered from 1 in their order.
    pub open spec fn renumbered(self, n: int) -> DiskConfView {
        DiskConfView {
            partitions: Seq::new(
                self.partitions.len(),
                |i: int|
                    if i < n {
                        PartConfView { index: (i + 1) as nat, ..self.partitions[i] }
                    } else {
                        self.partitions[i]
                    },
            ),
            ..self
        }
    }

    /// What on the disk is given and ignored: the table type where no new
    /// table is made, then the ignored fields of each partition in turn.
    pub open spec fn warnings(self) -> Seq<Warning> {
        let table = if self.action != DiskAction::New && self.table is Some {
            seq![Warning { partition: None, field: IgnoredField::Table }]
        } else {
            Seq::empty()
        };
        table + partition_warnings(self.partitions, self.partitions.len() as int)
    }
}

impl DiskConf {
    /// What the description of the disk says without effect. Each entry is
    /// worth a warning; none makes validation fail.
    pub fn warnings(&self) -> (list: Vec<Warning>)
        ensures
            list@ == self@.warnings(),
    {
        let mut list: Vec<Warning> = Vec::new();
        if !matches!(self.action, DiskAction::New) && self.table.is_some() {
            list.push(Warning { partition: None, field: IgnoredField::Table });
        }
        let ghost table = list@;
        let ghost parts = self@.partitions;
        let mut i: usize = 0;
        while i < self.partitions.len()
            invariant
                i <= self.partitions.len(),
                parts == self@.partitions,
                parts.len() == self.partitions.len(),
                list@ == table + partition_warnings(parts, i as int),
            decreases self.partitions.len() - i,
        {
            let fields = self.partitions[i].ignored();
            let ghost entered = list@;
            let ghost number = |field: IgnoredField|
                Warning { partition: Some((i + 1) as usize), field };
            assert(parts[i as int] == self.partitions@[i as int]@);
            let mut k: usize = 0;
            while k < fields.len()
                invariant
                    k <= fields.len(),
                    i < self.partitions.len(),
                    number == (|field: IgnoredField|
                        Warning { partition: Some((i + 1) as usize), field }),
                    list@ == entered + fields@.take(k as int).map_values(number),
                decreases fields.len() - k,
            {
                list.push(Warning { partition: Some(i + 1), field: fields[k] });
                assert(fields@.take(k + 1).map_values(number) =~= fields@.take(
                    k as int,
                ).map_values(number).push(number(fields@[k as int])));
                k = k + 1;
            }
            assert(fields@.take(k as int) =~= fields@);
            assert(list@ =~= table + partition_warnings(parts, i + 1));
            i = i + 1;
        }
        list
    }
}

impl Validate for DiskConf {
    /// The first broken rule of a disk. The rules of the disk as a whole come
    /// first: a new table needs its type (reported for the path of the disk);
    /// a locked disk keeps every partition (reported for the path and the
    /// position of the first partition that is to change). Then come the
    /// partitions in their order, each reported for its position. Positions
    /// count from 1.
    open spec fn failure(v: DiskConfView) -> Option<ValidationErrorView> {
        if v.table_missing() {
            Some(ValidationErrorView { context: v.path, msg: table_required_text() })
        } else if v.action == DiskAction::Locked && v.first_altered() is Some {
            Some(
                ValidationErrorView {
                    context: v.path + " -> "@ + decimal((v.first_altered()->0 + 1) as nat),
                    msg: locked_text(),
                },
            )
        } else {
            match v.first_broken() {
                Some(k) => Some(
                    ValidationErrorView {
                        context: decimal((k + 1) as nat),
                        msg: v.partitions[k].broken_rule()->0.text(),
                    },
                ),
                None => None,
            }
        }
    }

    /// Validation numbers the partitions from 1 in the order of the
    /// description, as far as it gets, and changes nothing else.
    open spec fn outcome(v: DiskConfView) -> DiskConfView {
        v.renumbered(v.numbered())
    }

    fn validate(&mut self) -> (r: Result<(), ValidationError>) {
        let ghost before = self@;
        let ghost altered = |p: PartConfView| p.action != PartAction::Keep;
        let ghost broken = |p: PartConfView| p.broken_rule() is Some;
        proof {
            lemma_renumbered_none(before);
        }
        if matches!(self.action, DiskAction::New) && self.table.is_none() {
            return Err(
                ValidationError::new(
                    self.path.as_str(),
                    "'table' field is required when disk action is 'new'",
                ),
            );
        }
        if matches!(self.action, DiskAction::Locked) {
            let mut i: usize = 0;
            while i < self.partitions.len()
                invariant
                    self@ == before,
                    before == before.renumbered(0),
                    before.action == DiskAction::Locked,
                    before.partitions.len() == self.partitions.len(),
                    i <= self.partitions.len(),
                    altered == (|p: PartConfView| p.action != PartAction::Keep),
                    forall|j: int| 0 <= j < i ==> !altered(#[trigger] before.partitions[j]),
                decreases self.partitions.len() - i,
            {
                assert(before.partitions[i as int] == self.partitions@[i as int]@);
                if !matches!(self.partitions[i].action, PartAction::Keep) {
                    proof {
                        assert(is_first(before.partitions, altered, i as int));
                        lemma_first_index_is(before.partitions, altered, i as int);
                    }
                    let context = String::from_str(self.path.as_str()).concat(" -> ").concat(
                        decimal_string(i + 1).as_str(),
                    );
                    return Err(
                        ValidationError::new(
                            context.as_str(),
                            "Partition action must be 'keep' if disk action is 'locked'",
                        ),
                    );
                }
                i = i + 1;
            }
            proof {
                lemma_first_index_none(before.partitions, altered);
            }
        }
        let mut i: usize = 0;
        while i < self.partitions.len()
            invariant
                before == old(self)@,
                !before.disk_rule_broken(),
                self@ == before.renumbered(i as int),
                before.partitions.len() == self.partitions.len(),
                i <= self.partitions.len(),
                broken == (|p: PartConfView| p.broken_rule() is Some),
                forall|j: int| 0 <= j < i ==> !broken(#[trigger] before.partitions[j]),
            decreases self.partitions.len() - i,
        {
            let ghost entered = self.partitions@;
            assert(forall|j: int|
                0 <= j < entered.len() ==> (#[trigger] entered[j])@ == before.renumbered(
                    i as int,
                ).partitions[j]) by {
                assert(self@.partitions == before.renumbered(i as int).partitions);
                assert forall|j: int| 0 <= j < entered.len() implies (#[trigger] entered[j])@
                    == before.renumbered(i as int).partitions[j] by {
                    assert(self@.partitions[j] == entered[j]@);
                }
            }
            self.partitions[i].index = i + 1;
            proof {
                assert(self@.partitions =~= before.renumbered(i + 1).partitions) by {
                    assert forall|j: int| 0 <= j < before.partitions.len() implies self@.partitions[j]
                        == before.renumbered(i + 1).partitions[j] by {
                        assert(self@.partitions[j] == self.partitions@[j]@);
                        if j != i {
                            assert(self.partitions@[j] == entered[j]);
                        }
                    }
                }
                assert(self@.partitions[i as int] == self.partitions@[i as int]@);
                assert(self@.partitions[i as int].broken_rule() == before.partitions[i as int].broken_rule());
            }
            match self.partitions[i].broken_rule() {
                Some(rule) => {
                    proof {
                        assert(is_first(before.partitions, broken, i as int));
                        lemma_first_index_is(before.partitions, broken, i as int);
                    }
                    return Err(
                        ValidationError::new(decimal_string(i + 1).as_str(), rule.message()),
                    );
                },
                None => {},
            }
            i = i + 1;
        }
        proof {
            lemma_first_index_none(before.partitions, broken);
        }
        Ok(())
    }
}

/// To number none of the partitions is to leave the disk as it is.
pub proof fn lemma_renumbered_none(v: DiskConfView)
    ensures
        v.renumbered(0) == v,
{
    assert(v.renumbered(0).partitions =~= v.partitions);
}

/// The table type is needed exactly where a new table is made. Without it
/// such a disk fails, reported for its path. Where no new table is made, a
/// type that is given is ignored: it is worth the first warning, and
/// validation finds and does what it would without it.
pub proof fn lemma_table_rule(d: DiskConfView)
    ensures
        d.action == DiskAction::New && d.table is None ==> DiskConf::failure(d) == Some(
            ValidationErrorView { context: d.path, msg: table_required_text() },
        ) && DiskConf::outcome(d) == d,
        d.action != DiskAction::New ==> DiskConf::failure(d) == DiskConf::failure(
            DiskConfView { table: None, ..d },
        ) && DiskConf::outcome(d).partitions == DiskConf::outcome(
            DiskConfView { table: None, ..d },
        ).partitions,
        d.action != DiskAction::New && d.table is Some ==> d.warnings().len() > 0
            && d.warnings()[0] == (Warning { partition: None, field: IgnoredField::Table }),
        d.action == DiskAction::New ==> forall|i: int|
            0 <= i < d.warnings().len() ==> (#[trigger] d.warnings()[i]).field
                != IgnoredField::Table,
{
    lemma_renumbered_none(d);
    if d.action == DiskAction::New {
        assert forall|i: int| 0 <= i < d.warnings().len() implies (#[trigger] d.warnings()[i]).field
            != IgnoredField::Table by {
            lemma_partition_warnings(d.partitions, d.partitions.len() as int, i);
        }
    }
}

/// A warning for a partition names its size or its filesystem, never the
/// table.
pub proof fn lemma_partition_warnings(parts: Seq<PartConfView>, n: int, i: int)
    requires
        0 <= n <= parts.len(),
        0 <= i < partition_warnings(parts, n).len(),
    ensures
        partition_warnings(parts, n)[i].field != IgnoredField::Table,
        partition_warnings(parts, n)[i].partition is Some,
    decreases n,
{
    if n > 0 {
        let head = partition_warnings(parts, n - 1);
        if i < head.len() {
            lemma_partition_warnings(parts, n - 1, i);
        }
    }
}

/// A locked disk with a partition that is not kept fails: the error names
/// the path of the disk and the position, counted from 1, of the first such
/// partition, and validation changes nothing.
pub proof fn lemma_locked_rule(d: DiskConfView, k: int)
    requires
        d.action == DiskAction::Locked,
        0 <= k < d.partitions.len(),
        d.partitions[k].action != PartAction::Keep,
    ensures
        d.first_altered() is Some,
        0 <= d.first_altered()->0 <= k,
        d.partitions[d.first_altered()->0].action != PartAction::Keep,
        forall|j: int| 0 <= j < d.first_altered()->0 ==> (#[trigger] d.partitions[j]).action
            == PartAction::Keep,
        DiskConf::failure(d) == Some(
            ValidationErrorView {
                context: d.path + " -> "@ + decimal((d.first_altered()->0 + 1) as nat),
                msg: locked_text(),
            },
        ),
        DiskConf::outcome(d) == d,
{
    let altered = |p: PartConfView| p.action != PartAction::Keep;
    lemma_first_index_found(d.partitions, altered);
    assert(altered(d.partitions[k]));
    let first = d.first_altered()->0;
    if k < first {
        assert(!altered(d.partitions[k]));
    }
    assert forall|j: int| 0 <= j < first implies (#[trigger] d.partitions[j]).action
        == PartAction::Keep by {
        assert(!altered(d.partitions[j]));
    }
    lemma_renumbered_none(d);
}

/// A disk that passes validation has its partitions numbered 1 to N in the
/// order of the description, and nothing else about them has changed.
pub proof fn lemma_validated_indices(d: DiskConfView)
    requires
        DiskConf::failure(d) is None,
    ensures
        DiskConf::outcome(d).partitions.len() == d.partitions.len(),
        forall|i: int|
            0 <= i < d.partitions.len() ==> #[trigger] DiskConf::outcome(d).partitions[i] == (
            PartConfView { index: (i + 1) as nat, ..d.partitions[i] }),
{
}

/// Whether two disks differ in nothing but the numbers that their
/// partitions carry.
pub open spec fn same_but_indices(a: DiskConfView, b: DiskConfView) -> bool {
    &&& a.path == b.path
    &&& a.action == b.action
    &&& a.table == b.table
    &&& a.partitions.len() == b.partitions.len()
    &&& forall|i: int|
        0 <= i < a.partitions.len() ==> #[trigger] a.partitions[i] == (PartConfView {
            index: a.partitions[i].index,
            ..b.partitions[i]
        })
}

/// The numbers that the partitions carry before validation have no part in
/// it: two disks that differ in nothing else meet the same verdict, and where
/// they pass they leave validation as the same disk.
pub proof fn lemma_indices_ignored(a: DiskConfView, b: DiskConfView)
    requires
        same_but_indices(a, b),
    ensures
        DiskConf::failure(a) == DiskConf::failure(b),
        same_but_indices(DiskConf::outcome(a), DiskConf::outcome(b)),
        DiskConf::failure(a) is None ==> DiskConf::outcome(a) == DiskConf::outcome(b),
{
    let altered = |p: PartConfView| p.action != PartAction::Keep;
    let broken = |p: PartConfView| p.broken_rule() is Some;
    lemma_same_first(a.partitions, b.partitions, altered);
    lemma_same_first(a.partitions, b.partitions, broken);
    assert(a.first_altered() == b.first_altered());
    assert(a.first_broken() == b.first_broken());
    if DiskConf::failure(a) is None {
        assert(DiskConf::outcome(a).partitions =~= DiskConf::outcome(b).partitions);
    }
}

proof fn lemma_same_first(a: Seq<PartConfView>, b: Seq<PartConfView>, p: spec_fn(PartConfView) -> bool)
    requires
        a.len() == b.len(),
        forall|i: int| 0 <= i < a.len() ==> p(#[trigger] a[i]) == p(b[i]),
    ensures
        first_index(a, p) == first_index(b, p),
{
    lemma_first_index_found(a, p);
    match first_index(a, p) {
        Some(i) => {
            assert forall|j: int| 0 <= j < i implies !p(#[trigger] b[j]) by {
                assert(!p(a[j]));
            }
            lemma_first_index_is(b, p, i);
        },
        None => {
            assert forall|j: int| 0 <= j < b.len() implies !p(#[trigger] b[j]) by {
                assert(!p(a[j]));
            }
            lemma_first_index_none(b, p);
        },
    }
}

/// Each disk action is reached by its own name: `locked`, `keep`, `alter`
/// and `new`.
pub proof fn lemma_disk_action_names()
    ensures
        disk_action_of("locked"@) == Some(DiskAction::Locked),
        disk_action_of("keep"@) == Some(DiskAction::Keep),
        disk_action_of("alter"@) == Some(DiskAction::Alter),
        disk_action_of("new"@) == Some(DiskAction::New),
{
    reveal_strlit("locked");
    reveal_strlit("keep");
    reveal_strlit("alter");
    reveal_strlit("new");
    assert("keep"@.len() != "locked"@.len());
    assert("alter"@.len() != "locked"@.len());
    assert("alter"@.len() != "keep"@.len());
    assert("new"@.len() != "locked"@.len());
    assert("new"@.len() != "keep"@.len());
    assert("new"@.len() != "alter"@.len());
}

} // verus!
