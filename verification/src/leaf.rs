//! Installing the system: what the package manager is asked for.

use vstd::prelude::*;
use vstd::string::*;
use crate::conf::seed::{SeedConf, SeedConfView};
use crate::text::{string_views, text_option};

verus! {

/// What the package manager is asked for.
#[derive(Debug)]
pub struct LeafRequest {
    /// Where the list of packages is fetched from, if not from the default.
    pub pkglisturl: Option<String>,
    /// The directory that the system is installed into.
    pub rootdir: String,
    /// Whether the package manager goes ahead without asking.
    pub noask: bool,
    /// The packages to install.
    pub packages: Vec<String>,
}

/// A [`LeafRequest`] with its texts taken by their characters.
pub struct LeafRequestView {
    pub pkglisturl: Option<Seq<char>>,
    pub rootdir: Seq<char>,
    pub noask: bool,
    pub packages: Seq<Seq<char>>,
}

impl View for LeafRequest {
    type V = LeafRequestView;

    open spec fn view(&self) -> LeafRequestView {
        LeafRequestView {
            pkglisturl: text_option(self.pkglisturl),
            rootdir: self.rootdir@,
            noask: self.noask,
            packages: string_views(self.packages@),
        }
    }
}

/// The request for a description: the system goes into the directory
/// `mount/` under the working directory, without questions, and consists of
/// the packages that the description lists (of none where it lists none).
pub open spec fn leaf_request(conf: SeedConfView) -> LeafRequestView {
    LeafRequestView {
        pkglisturl: text_option(conf.installation.pkglisturl),
        rootdir: conf.workdir + "/mount/"@,
        noask: true,
        packages: match conf.installation.packages {
            Some(list) => string_views(list@),
            None => Seq::empty(),
        },
    }
}

/// Works out what the package manager is asked for to install the system.
/// Nothing is installed here.
pub fn leaf_install_system(conf: &SeedConf) -> (request: LeafRequest)
    ensures
        request@ == leaf_request(conf@),
{
    let pkglisturl = match &conf.installation.pkglisturl {
        Some(url) => Some(url.clone()),
        None => None,
    };
    let rootdir = String::from_str(conf.workdir.as_str()).concat("/mount/");
    let mut packages: Vec<String> = Vec::new();
    match &conf.installation.packages {
        Some(list) => {
            let mut i: usize = 0;
            while i < list.len()
                invariant
                    i <= list.len(),
                    string_views(packages@) == string_views(list@).take(i as int),
                decreases list.len() - i,
            {
                let ghost entered = packages@;
                packages.push(list[i].clone());
                proof {
                    assert(entered.len() == i) by {
                        assert(string_views(entered).len() == entered.len());
                    }
                    assert forall|k: int| 0 <= k < i + 1 implies string_views(packages@)[k]
                        == string_views(list@).take(i + 1)[k] by {
                        if k < i {
                            assert(string_views(entered)[k] == string_views(list@).take(i as int)[k]);
                        }
                    }
                    assert(string_views(packages@) =~= string_views(list@).take(i + 1));
                }
                i = i + 1;
            }
            assert(string_views(list@).take(i as int) =~= string_views(list@));
        },
        None => {
            assert(string_views(packages@) =~= Seq::<Seq<char>>::empty());
        },
    }
    LeafRequest { pkglisturl, rootdir, noask: true, packages }
}

} // verus!
