//! The defaults and the well-known paths of the driver.
use crate::store::store::StoreType;
use vstd::prelude::*;

verus! {

/// The storage engine of a process that was told none.
pub const DEFAULT_STORE_TYPE: StoreType = StoreType::InMemory;

/// Where the filesystem is mounted when the process was told no place.
pub const DEFAULT_MOUNTPOINT: &'static str = "/tmp/fusefs";

/// The path of the rendezvous socket. That the file exists says that a
/// handoff is on offer.
pub const SOCKET_UPGRADE_PATH: &'static str = "/tmp/fusefs_upgrade.sock";

} // verus!
