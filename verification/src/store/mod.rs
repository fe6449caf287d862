//! Storage engines and the data they hold.
pub mod etcd_store;
pub mod index;
pub mod laws;
pub mod memory_store;
pub mod model;
pub mod store;
