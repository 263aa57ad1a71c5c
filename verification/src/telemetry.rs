//! Plain host-telemetry records, purely descriptive: the float-free part of
//! the snapshot served beside the registry data.  Reading them from the
//! operating system happens outside the library.

use vstd::prelude::*;

verus! {

/// Bytes a process has read and written.
#[derive(Clone, Copy, PartialEq, Eq, Structural, Debug)]
pub struct DiskUsage {
    pub total_written_bytes: u64,
    pub written_bytes: u64,
    pub total_read_bytes: u64,
    pub read_bytes: u64,
}

/// What kind of medium a disk is.
#[derive(Clone, Copy, PartialEq, Eq, Structural, Debug)]
pub enum DiskKind {
    HDD,
    SSD,
    Unknown(isize),
}

/// One mounted disk.
#[derive(Clone, Debug)]
pub struct Disk {
    pub kind: DiskKind,
    pub name: String,
    pub file_system: Option<String>,
    pub mount_point: String,
    pub total_space: u64,
    pub available_space: u64,
    pub is_removable: bool,
}

/// One user account on the host.
#[derive(Clone, Debug)]
pub struct User {
    pub name: String,
    pub groups: Vec<String>,
}

impl Disk {
    /// Space in use on the disk, saturating at zero should the reported
    /// available space exceed the total.
    pub fn used_space(&self) -> (r: u64)
        ensures
            self.available_space <= self.total_space
                ==> r == self.total_space - self.available_space,
            self.available_space > self.total_space ==> r == 0,
    {
        if self.available_space <= self.total_space {
            self.total_space - self.available_space
        } else {
            0
        }
    }
}

} // verus!
