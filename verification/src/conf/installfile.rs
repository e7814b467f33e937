//! The file that describes an installation.

use vstd::prelude::*;
use crate::conf::seed::{SeedConf, SeedConfView};
use crate::conf::validate::{Validate, ValidationError, ValidationErrorView};

verus! {

/// The contents of an installation file.
#[derive(Debug)]
pub struct InstallFile {
    pub seed: SeedConf,
}

/// An [`InstallFile`] with its description taken by its view.
pub struct InstallFileView {
    pub seed: SeedConfView,
}

impl View for InstallFile {
    type V = InstallFileView;

    open spec fn view(&self) -> InstallFileView {
        InstallFileView { seed: self.seed@ }
    }
}

impl Validate for InstallFile {
    /// The first broken rule of the description.
    open spec fn failure(v: InstallFileView) -> Option<ValidationErrorView> {
        SeedConf::failure(v.seed)
    }

    /// The file with its description as validation leaves it.
    open spec fn outcome(v: InstallFileView) -> InstallFileView {
        InstallFileView { seed: SeedConf::outcome(v.seed) }
    }

    fn validate(&mut self) -> (r: Result<(), ValidationError>) {
        self.seed.validate()
    }
}

} // verus!
