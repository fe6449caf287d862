//! A user-space filesystem driver's core: the storage engines that hold the
//! tree of files and directories, and the coordinators that decide how the
//! process shuts down and hands its kernel channel to a successor.
//!
//! But for reading the clock, nothing here touches the world outside the
//! process: not the kernel, not the network, not the disk. Every function
//! takes plain values and returns plain values, so that each can state in
//! its contract what it returns and what it changes:
//!
//! - `store` holds the data model, the contract of a storage engine, the
//!   engine that lives in memory, and the decisions of the engine
//!   that is backed by a remote key-value service;
//! - `fuse` answers the kernel's requests from a storage engine;
//! - `exit` decides what a termination signal does and with which status
//!   the process leaves;
//! - `upgrade` decides, step by step, how the kernel channel passes from a
//!   running instance to its successor;
//! - `config` and `consts` hold what the environment selects and the
//!   defaults;
//! - `passthrough` keeps the table of a filesystem that mirrors a directory
//!   of the host;
//! - `decimal` and `text` read and write numbers and compare text.
pub mod config;
pub mod consts;
pub mod decimal;
pub mod exit;
pub mod fuse;
pub mod passthrough;
pub mod store;
pub mod text;
pub mod upgrade;
