//! The description as a whole: the disks, and what is installed on them.

use vstd::prelude::*;
use vstd::string::*;
use std::collections::HashMap;
use crate::conf::disk::{DiskConf, DiskConfView};
use crate::conf::validate::{Validate, ValidationError, ValidationErrorView};
use crate::search::{first_index, is_first, lemma_first_index_is, lemma_first_index_none};
use crate::text::{invalid_variant, invalid_variant_text, lowercase, str_eq, text_result};

verus! {

/// How the table of filesystems names a partition.
#[derive(Clone, Copy, Debug, PartialEq, Eq, Structural)]
pub enum FSTabMode {
    UUID,
    Label,
    Device,
}

/// The commands that the installation relies on.
#[derive(Debug)]
pub struct EnvConf {
    pub chrootcmd: Option<String>,
}

/// The packages that are installed, and where their list comes from.
#[derive(Debug)]
pub struct InstallationConf {
    pub pkglisturl: Option<String>,
    pub packages: Option<Vec<String>>,
}

/// How the table of filesystems is written.
#[derive(Debug)]
pub struct FSTabConf {
    pub mode: FSTabMode,
    pub path: Option<String>,
}

/// The units of the service manager that are switched on.
#[derive(Debug)]
pub struct SystemdConf {
    pub enable_units: Option<Vec<String>>,
}

/// The time zone of the installed system.
#[derive(Debug)]
pub struct TimeConf {
    pub timezone: String,
}

/// The languages of the installed system.
#[derive(Debug)]
pub struct LangConf {
    pub default: Option<String>,
    pub locales: Option<Vec<String>>,
}

/// The description of an installation.
#[derive(Debug)]
pub struct SeedConf {
    /// The directory under which the installer works.
    pub workdir: String,
    pub env: EnvConf,
    /// The disks, in the order of the description.
    pub disks: Vec<DiskConf>,
    pub installation: InstallationConf,
    pub fstab: FSTabConf,
    pub systemd: SystemdConf,
    pub symlinks: Option<Vec<HashMap<String, String>>>,
    pub time: Option<TimeConf>,
    pub lang: Option<LangConf>,
}

/// A [`SeedConf`] with its disks taken by their views. What validation and
/// mounting never look at is carried as it is.
pub struct SeedConfView {
    pub workdir: Seq<char>,
    pub env: EnvConf,
    pub disks: Seq<DiskConfView>,
    pub installation: InstallationConf,
    pub fstab: FSTabConf,
    pub systemd: SystemdConf,
    pub symlinks: Option<Vec<HashMap<String, String>>>,
    pub time: Option<TimeConf>,
    pub lang: Option<LangConf>,
}

impl View for SeedConf {
    type V = SeedConfView;

    open spec fn view(&self) -> SeedConfView {
        SeedConfView {
            workdir: self.workdir@,
            env: self.env,
            disks: self.disks@.map_values(|d: DiskConf| d@),
            installation: self.installation,
            fstab: self.fstab,
            systemd: self.systemd,
            symlinks: self.symlinks,
            time: self.time,
            lang: self.lang,
        }
    }
}

/// The mode that a lower-case name stands for.
pub open spec fn fstab_mode_of(name: Seq<char>) -> Option<FSTabMode> {
    if name == "uuid"@ {
        Some(FSTabMode::UUID)
    } else if name == "label"@ {
        Some(FSTabMode::Label)
    } else if name == "device"@ {
        Some(FSTabMode::Device)
    } else {
        None
    }
}

/// The names of the modes, as the messages list them.
pub open spec fn fstab_modes_text() -> Seq<char> {
    "[\"uuid\", \"label\", \"device\"]"@
}

/// The mode that a lower-case name stands for, or the message that says that
/// it stands for none.
pub open spec fn fstab_mode_from(name: Seq<char>) -> Result<FSTabMode, Seq<char>> {
    match fstab_mode_of(name) {
        Some(mode) => Ok(mode),
        None => Err(invalid_variant_text("FSTabMode"@, name, fstab_modes_text())),
    }
}

/// Matches the lower-case name of a mode to the mode; hands the name back
/// where it is none.
pub fn match_fstab_mode(value: &str) -> (r: Result<FSTabMode, &str>)
    ensures
        match fstab_mode_of(value@) {
            Some(mode) => r == Ok::<FSTabMode, &str>(mode),
            None => r == Err::<FSTabMode, &str>(value),
        },
{
    if str_eq(value, "uuid") {
        Ok(FSTabMode::UUID)
    } else if str_eq(value, "label") {
        Ok(FSTabMode::Label)
    } else if str_eq(value, "device") {
        Ok(FSTabMode::Device)
    } else {
        Err(value)
    }
}

impl FSTabMode {
    /// The mode with the given lower-case name.
    pub fn from_name(name: &str) -> (r: Result<FSTabMode, String>)
        ensures
            text_result(r) == fstab_mode_from(name@),
    {
        match match_fstab_mode(name) {
            Ok(mode) => Ok(mode),
            Err(other) => Err(invalid_variant("FSTabMode", other, "[\"uuid\", \"label\", \"device\"]")),
        }
    }

    /// Reads a mode from its name, written in any case of letters.
    pub fn parse(value: &str) -> (r: Result<FSTabMode, String>)
        ensures
            text_result(r) == fstab_mode_from(lowercase(value@)),
    {
        let name = value.to_lowercase();
        FSTabMode::from_name(name.as_str())
    }
}

/// The working directory of a description that names none.
pub fn seed_default_workdir() -> (dir: String)
    ensures
        dir@ == "./seed_workdir/"@,
{
    String::from_str("./seed_workdir/")
}

impl SeedConfView {
    /// The position of the first disk that breaks a rule.
    pub open spec fn first_failing(self) -> Option<int> {
        first_index(self.disks, |d: DiskConfView| DiskConf::failure(d) is Some)
    }

    /// How many disks validation gets to: all up to the first that fails.
    pub open spec fn reached(self) -> int {
        match self.first_failing() {
            Some(k) => k + 1,
            None => self.disks.len() as int,
        }
    }

    /// The description with its first `n` disks as validation leaves them.
    pub open spec fn validated(self, n: int) -> SeedConfView {
        SeedConfView {
            disks: Seq::new(
                self.disks.len(),
                |i: int|
                    if i < n {
                        DiskConf::outcome(self.disks[i])
                    } else {
                        self.disks[i]
                    },
            ),
            ..self
        }
    }
}

impl Validate for SeedConf {
    /// The first broken rule of the first disk that breaks one.
    open spec fn failure(v: SeedConfView) -> Option<ValidationErrorView> {
        match v.first_failing() {
            Some(k) => DiskConf::failure(v.disks[k]),
            None => None,
        }
    }

    /// The disks are validated in their order, up to the first that fails;
    /// the disks after it, and everything but the disks, stay as they were.
    open spec fn outcome(v: SeedConfView) -> SeedConfView {
        v.validated(v.reached())
    }

    fn validate(&mut self) -> (r: Result<(), ValidationError>) {
        let ghost before = self@;
        let ghost failing = |d: DiskConfView| DiskConf::failure(d) is Some;
        proof {
            assert(before.validated(0).disks =~= before.disks);
        }
        let mut i: usize = 0;
        while i < self.disks.len()
            invariant
                before == old(self)@,
                self@ == before.validated(i as int),
                before.disks.len() == self.disks.len(),
                i <= self.disks.len(),
                failing == (|d: DiskConfView| DiskConf::failure(d) is Some),
                forall|j: int| 0 <= j < i ==> !failing(#[trigger] before.disks[j]),
            decreases self.disks.len() - i,
        {
            let ghost entered = self.disks@;
            assert(forall|j: int|
                0 <= j < entered.len() ==> (#[trigger] entered[j])@ == before.validated(
                    i as int,
                ).disks[j]) by {
                assert(self@.disks == before.validated(i as int).disks);
                assert forall|j: int| 0 <= j < entered.len() implies (#[trigger] entered[j])@
                    == before.validated(i as int).disks[j] by {
                    assert(self@.disks[j] == entered[j]@);
                }
            }
            let checked = self.disks[i].validate();
            proof {
                assert(self@.disks =~= before.validated(i + 1).disks) by {
                    assert forall|j: int| 0 <= j < before.disks.len() implies self@.disks[j]
                        == before.validated(i + 1).disks[j] by {
                        assert(self@.disks[j] == self.disks@[j]@);
                        if j != i {
                            assert(self.disks@[j] == entered[j]);
                        }
                    }
                }
            }
            match checked {
                Err(e) => {
                    proof {
                        assert(is_first(before.disks, failing, i as int));
                        lemma_first_index_is(before.disks, failing, i as int);
                    }
                    return Err(e);
                },
                Ok(_) => {},
            }
            i = i + 1;
        }
        proof {
            lemma_first_index_none(before.disks, failing);
        }
        Ok(())
    }
}

/// Each mode is reached by its own name: `uuid`, `label` and `device`.
pub proof fn lemma_fstab_mode_names()
    ensures
        fstab_mode_of("uuid"@) == Some(FSTabMode::UUID),
        fstab_mode_of("label"@) == Some(FSTabMode::Label),
        fstab_mode_of("device"@) == Some(FSTabMode::Device),
{
    reveal_strlit("uuid");
    reveal_strlit("label");
    reveal_strlit("device");
    assert("label"@.len() != "uuid"@.len());
    assert("device"@.len() != "uuid"@.len());
    assert("device"@.len() != "label"@.len());
}

} // verus!
