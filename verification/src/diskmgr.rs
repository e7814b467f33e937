//! Carrying the description out: sizes in sectors, the planning of
//! partitions, filesystems, and the order of mounting.

pub mod diskmanager;
pub mod filesystem;
pub mod mount;
pub mod part;
pub mod util;
