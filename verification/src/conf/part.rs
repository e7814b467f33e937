//! Partitions: what may be done to one, and what the description says of it.

use vstd::prelude::*;
use vstd::string::*;
use crate::conf::size::PartSize;
use crate::conf::validate::{Validate, ValidationError, ValidationErrorView};
use crate::diskmgr::mount::{MountHandle, MountHandleView};
use crate::text::{
    decimal, decimal_string, invalid_variant, invalid_variant_text, lowercase, str_eq,
    text_option, text_result,
};

verus! {

/// The two sizes that are left to the planner: as small, or as large, as the
/// remaining space allows.
#[derive(Clone, Copy, Debug, PartialEq, Eq, Structural)]
pub enum PartTotal {
    Min,
    Max,
}

/// What is to be done to a partition.
#[derive(Clone, Copy, Debug, PartialEq, Eq, Structural)]
pub enum PartAction {
    /// It exists and stays as it is.
    Keep,
    /// It exists and gets a new filesystem.
    Format,
    /// It exists and gets a new size.
    Resize,
    /// It is made.
    Create,
}

/// The total that a keyword stands for.
pub open spec fn part_total_of(name: Seq<char>) -> Option<PartTotal> {
    if name == "min"@ {
        Some(PartTotal::Min)
    } else if name == "max"@ {
        Some(PartTotal::Max)
    } else {
        None
    }
}

/// The action that a lower-case name stands for.
pub open spec fn part_action_of(name: Seq<char>) -> Option<PartAction> {
    if name == "keep"@ {
        Some(PartAction::Keep)
    } else if name == "format"@ {
        Some(PartAction::Format)
    } else if name == "resize"@ {
        Some(PartAction::Resize)
    } else if name == "create"@ {
        Some(PartAction::Create)
    } else {
        None
    }
}

/// Matches a keyword to the total it names; hands the keyword back where it
/// names none.
pub fn match_part_total(value: &str) -> (r: Result<PartTotal, &str>)
    ensures
        match part_total_of(value@) {
            Some(total) => r == Ok::<PartTotal, &str>(total),
            None => r == Err::<PartTotal, &str>(value),
        },
{
    if str_eq(value, "min") {
        Ok(PartTotal::Min)
    } else if str_eq(value, "max") {
        Ok(PartTotal::Max)
    } else {
        Err(value)
    }
}

/// Matches the lower-case name of an action to the action; hands the name
/// back where it is none.
pub fn match_part_action(value: &str) -> (r: Result<PartAction, &str>)
    ensures
        match part_action_of(value@) {
            Some(action) => r == Ok::<PartAction, &str>(action),
            None => r == Err::<PartAction, &str>(value),
        },
{
    if str_eq(value, "keep") {
        Ok(PartAction::Keep)
    } else if str_eq(value, "format") {
        Ok(PartAction::Format)
    } else if str_eq(value, "resize") {
        Ok(PartAction::Resize)
    } else if str_eq(value, "create") {
        Ok(PartAction::Create)
    } else {
        Err(value)
    }
}

/// The names of the partition actions, as the messages list them.
pub open spec fn part_actions_text() -> Seq<char> {
    "[\"keep\", \"format\", \"resize\", \"create\"]"@
}

/// The action that a lower-case name stands for, or the message that says
/// that it stands for none.
pub open spec fn part_action_from(name: Seq<char>) -> Result<PartAction, Seq<char>> {
    match part_action_of(name) {
        Some(action) => Ok(action),
        None => Err(invalid_variant_text("PartAction"@, name, part_actions_text())),
    }
}

impl PartAction {
    /// The name of the action as it is shown in messages.
    pub open spec fn label(self) -> Seq<char> {
        match self {
            PartAction::Keep => "Keep"@,
            PartAction::Format => "Format"@,
            PartAction::Resize => "Resize"@,
            PartAction::Create => "Create"@,
        }
    }

    /// The name of the action as it is shown in messages.
    pub fn name(&self) -> (name: &'static str)
        ensures
            name@ == self.label(),
    {
        match self {
            PartAction::Keep => "Keep",
            PartAction::Format => "Format",
            PartAction::Resize => "Resize",
            PartAction::Create => "Create",
        }
    }

    /// The action with the given lower-case name.
    pub fn from_name(name: &str) -> (r: Result<PartAction, String>)
        ensures
            text_result(r) == part_action_from(name@),
    {
        match match_part_action(name) {
            Ok(action) => Ok(action),
            Err(other) => Err(
                invalid_variant(
                    "PartAction",
                    other,
                    "[\"keep\", \"format\", \"resize\", \"create\"]",
                ),
            ),
        }
    }

    /// Reads an action from its name, written in any case of letters.
    pub fn parse(value: &str) -> (r: Result<PartAction, String>)
        ensures
            text_result(r) == part_action_from(lowercase(value@)),
    {
        let name = value.to_lowercase();
        PartAction::from_name(name.as_str())
    }
}

/// A partition as the description gives it, together with its place on the
/// disk and the state of its mount.
#[derive(Debug)]
pub struct PartConf {
    /// The number of the partition on its disk, counted from 1. Validation
    /// assigns it; what the description said is overwritten.
    pub index: usize,
    pub action: PartAction,
    pub size: Option<PartSize>,
    /// The type of filesystem, as `mkfs -t` takes it.
    pub fs: Option<String>,
    /// The path at which the partition is mounted in the installed system.
    pub mount: Option<String>,
    /// Whether the partition is entered into the table of filesystems.
    pub fstab: Option<bool>,
    /// The live mount; present exactly while the partition is mounted.
    pub mount_point: Option<MountHandle>,
}

/// A [`PartConf`] with its texts taken by their characters.
pub struct PartConfView {
    pub index: nat,
    pub action: PartAction,
    pub size: Option<PartSize>,
    pub fs: Option<Seq<char>>,
    pub mount: Option<Seq<char>>,
    pub fstab: Option<bool>,
    pub mount_point: Option<MountHandleView>,
}

impl View for PartConf {
    type V = PartConfView;

    open spec fn view(&self) -> PartConfView {
        PartConfView {
            index: self.index as nat,
            action: self.action,
            size: self.size,
            fs: text_option(self.fs),
            mount: text_option(self.mount),
            fstab: self.fstab,
            mount_point: match self.mount_point {
                Some(handle) => Some(handle@),
                None => None,
            },
        }
    }
}

/// A rule that a partition can break.
#[derive(Clone, Copy, Debug, PartialEq, Eq, Structural)]
pub enum PartRule {
    /// A partition that is formatted names its filesystem.
    FormatNeedsFs,
    /// A partition that is resized names its size.
    ResizeNeedsSize,
    /// A partition that is created names its size.
    CreateNeedsSize,
    /// A partition that is created and mounted names its filesystem.
    MountNeedsFs,
    /// A partition that is entered into the table of filesystems has a mount
    /// path.
    FstabNeedsMount,
}

/// A field that the description gives and the action has no use for.
#[derive(Clone, Copy, Debug, PartialEq, Eq, Structural)]
pub enum IgnoredField {
    Table,
    Size,
    Fs,
}

impl PartRule {
    /// The message that reports the broken rule.
    pub open spec fn text(self) -> Seq<char> {
        match self {
            PartRule::FormatNeedsFs => "'fs' is required when partition action is set to 'format'"@,
            PartRule::ResizeNeedsSize => "'size' is required when action is 'resize'"@,
            PartRule::CreateNeedsSize => "'size' is required when action is 'create'"@,
            PartRule::MountNeedsFs => "'fs' is required when new partition is mounted"@,
            PartRule::FstabNeedsMount => "Can not add partition without 'mount' to fstab"@,
        }
    }

    /// The message that reports the broken rule.
    pub fn message(&self) -> (m: &'static str)
        ensures
            m@ == self.text(),
    {
        match self {
            PartRule::FormatNeedsFs => "'fs' is required when partition action is set to 'format'",
            PartRule::ResizeNeedsSize => "'size' is required when action is 'resize'",
            PartRule::CreateNeedsSize => "'size' is required when action is 'create'",
            PartRule::MountNeedsFs => "'fs' is required when new partition is mounted",
            PartRule::FstabNeedsMount => "Can not add partition without 'mount' to fstab",
        }
    }
}

impl PartConfView {
    /// Whether the fields that the action needs are there: a filesystem to
    /// format; a size to resize; to create, a size, and a filesystem where
    /// the partition is mounted. To keep a partition needs nothing.
    pub open spec fn has_required_fields(self) -> bool {
        match self.action {
            PartAction::Keep => true,
            PartAction::Format => self.fs is Some,
            PartAction::Resize => self.size is Some,
            PartAction::Create => self.size is Some && (self.mount is Some ==> self.fs is Some),
        }
    }

    /// Whether the partition is entered into the table of filesystems without
    /// a path to mount it at.
    pub open spec fn fstab_without_mount(self) -> bool {
        self.mount is None && self.fstab == Some(true)
    }

    /// The first rule that the partition breaks, `None` where it breaks none.
    /// The fields that the action needs come first, the size before the
    /// filesystem; the table of filesystems comes last.
    pub open spec fn broken_rule(self) -> Option<PartRule> {
        if self.action == PartAction::Format && self.fs is None {
            Some(PartRule::FormatNeedsFs)
        } else if self.action == PartAction::Resize && self.size is None {
            Some(PartRule::ResizeNeedsSize)
        } else if self.action == PartAction::Create && self.size is None {
            Some(PartRule::CreateNeedsSize)
        } else if self.action == PartAction::Create && self.mount is Some && self.fs is None {
            Some(PartRule::MountNeedsFs)
        } else if self.fstab_without_mount() {
            Some(PartRule::FstabNeedsMount)
        } else {
            None
        }
    }

    /// The fields that are given and ignored: size and filesystem of a
    /// partition that is kept, the size of one that is formatted, the
    /// filesystem of one that is resized.
    pub open spec fn ignored(self) -> Seq<IgnoredField> {
        let size = if self.size is Some && (self.action == PartAction::Keep || self.action
            == PartAction::Format) {
            seq![IgnoredField::Size]
        } else {
            Seq::empty()
        };
        let fs = if self.fs is Some && (self.action == PartAction::Keep || self.action
            == PartAction::Resize) {
            seq![IgnoredField::Fs]
        } else {
            Seq::empty()
        };
        size + fs
    }
}

impl PartConf {
    /// A partition that is not mounted and not yet numbered.
    pub fn new(
        action: PartAction,
        size: Option<PartSize>,
        fs: Option<String>,
        mount: Option<String>,
        fstab: Option<bool>,
    ) -> (part: PartConf)
        ensures
            part@ == (PartConfView {
                index: 0,
                action,
                size,
                fs: text_option(fs),
                mount: text_option(mount),
                fstab,
                mount_point: None,
            }),
    {
        PartConf { index: 0, action, size, fs, mount, fstab, mount_point: None }
    }

    /// The first rule that the partition breaks.
    pub fn broken_rule(&self) -> (rule: Option<PartRule>)
        ensures
            rule == self@.broken_rule(),
    {
        match self.action {
            PartAction::Keep => {},
            PartAction::Format => {
                if self.fs.is_none() {
                    return Some(PartRule::FormatNeedsFs);
                }
            },
            PartAction::Resize => {
                if self.size.is_none() {
                    return Some(PartRule::ResizeNeedsSize);
                }
            },
            PartAction::Create => {
                if self.size.is_none() {
                    return Some(PartRule::CreateNeedsSize);
                }
                if self.mount.is_some() && self.fs.is_none() {
                    return Some(PartRule::MountNeedsFs);
                }
            },
        }
        if self.mount.is_none() {
            match self.fstab {
                Some(true) => {
                    return Some(PartRule::FstabNeedsMount);
                },
                _ => {},
            }
        }
        None
    }

    /// The fields that the description gives and the action ignores. They
    /// are worth a warning and never an error.
    pub fn ignored(&self) -> (fields: Vec<IgnoredField>)
        ensures
            fields@ == self@.ignored(),
    {
        let mut fields: Vec<IgnoredField> = Vec::new();
        let keep = matches!(self.action, PartAction::Keep);
        if self.size.is_some() && (keep || matches!(self.action, PartAction::Format)) {
            fields.push(IgnoredField::Size);
        }
        if self.fs.is_some() && (keep || matches!(self.action, PartAction::Resize)) {
            fields.push(IgnoredField::Fs);
        }
        fields
    }
}

impl Validate for PartConf {
    /// The first broken rule, reported for the number of the partition.
    open spec fn failure(v: PartConfView) -> Option<ValidationErrorView> {
        match v.broken_rule() {
            Some(rule) => Some(ValidationErrorView { context: decimal(v.index), msg: rule.text() }),
            None => None,
        }
    }

    /// Validation leaves a partition as it is.
    open spec fn outcome(v: PartConfView) -> PartConfView {
        v
    }

    fn validate(&mut self) -> (r: Result<(), ValidationError>) {
        match self.broken_rule() {
            Some(rule) => Err(
                ValidationError::new(decimal_string(self.index).as_str(), rule.message()),
            ),
            None => Ok(()),
        }
    }
}

/// The field matrix. A partition obeys its rules exactly where the fields
/// that its action needs are there and it is not entered into the table of
/// filesystems without a mount path. A field that the action has no use for
/// never makes validation fail, present or not.
pub proof fn lemma_field_matrix(p: PartConfView)
    ensures
        PartConf::failure(p) is None <==> p.has_required_fields() && !p.fstab_without_mount(),
        p.action == PartAction::Keep ==> PartConf::failure(p) == PartConf::failure(
            PartConfView { size: None, fs: None, ..p },
        ),
        p.action == PartAction::Format ==> PartConf::failure(p) == PartConf::failure(
            PartConfView { size: None, ..p },
        ),
        p.action == PartAction::Resize ==> PartConf::failure(p) == PartConf::failure(
            PartConfView { fs: None, ..p },
        ),
{
}

/// Which rule is reported for each way of lacking a field that the action
/// needs.
pub proof fn lemma_missing_fields(p: PartConfView)
    ensures
        p.action == PartAction::Format && p.fs is None ==> p.broken_rule() == Some(
            PartRule::FormatNeedsFs,
        ),
        p.action == PartAction::Resize && p.size is None ==> p.broken_rule() == Some(
            PartRule::ResizeNeedsSize,
        ),
        p.action == PartAction::Create && p.size is None ==> p.broken_rule() == Some(
            PartRule::CreateNeedsSize,
        ),
        p.action == PartAction::Create && p.size is Some && p.mount is Some && p.fs is None
            ==> p.broken_rule() == Some(PartRule::MountNeedsFs),
        p.has_required_fields() && p.fstab_without_mount() ==> p.broken_rule() == Some(
            PartRule::FstabNeedsMount,
        ),
{
}

/// Each partition action is reached by its own name (`keep`, `format`,
/// `resize`, `create`), and each total by its keyword (`min`, `max`).
pub proof fn lemma_part_names()
    ensures
        part_action_of("keep"@) == Some(PartAction::Keep),
        part_action_of("format"@) == Some(PartAction::Format),
        part_action_of("resize"@) == Some(PartAction::Resize),
        part_action_of("create"@) == Some(PartAction::Create),
        part_total_of("min"@) == Some(PartTotal::Min),
        part_total_of("max"@) == Some(PartTotal::Max),
{
    reveal_strlit("keep");
    reveal_strlit("format");
    reveal_strlit("resize");
    reveal_strlit("create");
    reveal_strlit("min");
    reveal_strlit("max");
    assert("format"@.len() != "keep"@.len());
    assert("resize"@.len() != "keep"@.len());
    assert("create"@.len() != "keep"@.len());
    assert("resize"@[0] != "format"@[0]);
    assert("create"@[0] != "format"@[0]);
    assert("create"@[0] != "resize"@[0]);
    assert("max"@[1] != "min"@[1]);
}

} // verus!
