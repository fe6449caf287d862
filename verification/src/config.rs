//! What the process environment asks for: which storage engine to run on,
//! and where to mount.
use crate::store::store::StoreType;
use crate::text::same_text;
use vstd::prelude::*;

verus! {

/// The word that selects the engine backed by the remote service.
pub const STORE_ETCD: &'static str = "etcd";

/// The word that selects the in-memory engine.
pub const STORE_IN_MEMORY: &'static str = "in-mem";

/// The storage engine that `value` names, or `default` for a value that
/// names none.
pub open spec fn store_named(value: Seq<char>, default: StoreType) -> StoreType {
    if value == STORE_ETCD@ {
        StoreType::Etcd
    } else if value == STORE_IN_MEMORY@ {
        StoreType::InMemory
    } else {
        default
    }
}

/// The storage engine to run on, given what the environment holds under the
/// store's variable: the engine that the value names, or `default` where
/// the variable is unset or names none.
pub fn get_store_from_env(value: Option<&str>, default: StoreType) -> (store: StoreType)
    ensures
        store == (match value {
            Some(v) => store_named(v@, default),
            None => default,
        }),
{
    match value {
        Some(v) => {
            if same_text(v, STORE_ETCD) {
                StoreType::Etcd
            } else if same_text(v, STORE_IN_MEMORY) {
                StoreType::InMemory
            } else {
                default
            }
        },
        None => default,
    }
}

/// The place to mount at, given what the environment holds under the mount
/// point's variable: that value, or `default` where the variable is unset.
pub fn get_mountpoint_from_env(value: Option<String>, default: String) -> (mountpoint: String)
    ensures
        mountpoint == (match value {
            Some(v) => v,
            None => default,
        }),
{
    match value {
        Some(v) => v,
        None => default,
    }
}

} // verus!
