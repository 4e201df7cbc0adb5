[package]
name = "block_io"
version = "0.1.0"
edition = "2021"
publish = false

[dependencies]
displaydoc = "=0.2.7"
libc = "=0.2.191"
serde = "=1.0.229"
serde_json = "=1.0.154"
thiserror = "=2.0.21"
vm-memory = { version = "=0.17.1", features = ["backend-mmap", "backend-bitmap"] }
vmm-sys-util = "=0.15.0"
