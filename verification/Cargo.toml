[package]
name = "fusefs"
version = "0.1.0"
edition = "2021"
publish = false

[dependencies]
errno = "=0.3.14"
etcd-client = "0.8.4"
fuser = { version = "0.14.0", default-features = false, features = ["serializable"] }
libc = "=0.2.191"
serde = { version = "=1.0.229", features = ["derive"] }
serde_yaml = "=0.9.34"
signal-hook = "=0.4.5"
tokio = { version = "=1.54.1", features = ["rt-multi-thread", "macros"] }
