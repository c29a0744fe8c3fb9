//! The readings of one sampling tick, by category. The broadcast path treats
//! their encoding as an opaque payload.
use vstd::prelude::*;

verus! {

/// Memory and swap usage, in bytes.
#[derive(Debug, Clone, Copy, PartialEq, Eq, Structural)]
pub struct MemoryInfo {
    pub total: u64,
    pub free: u64,
    pub used: u64,
    pub swap_total: u64,
    pub swap_free: u64,
    pub swap_used: u64,
}

/// The kind of storage behind a disk.
#[derive(Debug, Clone, Copy, PartialEq, Eq, Structural)]
pub enum DiskInfoKind {
    /// A hard disk drive.
    HDD,
    /// A solid state drive.
    SSD,
    /// Any other kind, with the code the system reported.
    Unknown(isize),
}

/// One mounted disk.
#[derive(Debug, Clone)]
pub struct DiskInfo {
    pub kind: DiskInfoKind,
    pub device_name: String,
    pub file_system: Vec<u8>,
    pub mount_point: String,
    pub total_space: u64,
    pub available_space: u64,
    pub is_removable: bool,
}

/// Traffic counters of one network interface since it came up.
#[derive(Debug, Clone)]
pub struct NetworkInfo {
    pub name: String,
    pub mac_addr: String,
    pub received: u64,
    pub transmitted: u64,
    pub packets_received: u64,
    pub packets_transmitted: u64,
    pub error_received: u64,
    pub error_transmitted: u64,
}

} // verus!
