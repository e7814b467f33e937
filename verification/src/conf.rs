//! The description of the installation: disks, partitions and their sizes.

pub mod disk;
pub mod installfile;
pub mod part;
pub mod seed;
pub mod size;
pub mod validate;
