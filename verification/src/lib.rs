//! Storage provisioning for an operating system installer: a description of
//! disks and partitions is validated, partition sizes are resolved to sectors,
//! and mount points are scheduled so that parents come before their children.

pub mod conf;
pub mod diskmgr;
pub mod leaf;
pub mod search;
pub mod text;
