[package]
name = "knofoo_vm"
version = "0.1.0"
edition = "2021"
publish = false

[dependencies]
base64 = "=0.22.1"
serde = { version = "=1.0.229", features = ["derive"] }
serde_json = "=1.0.154"
parking_lot = "=0.12.5"
smoltcp = "=0.11.0"
dirs-next = "=2.0.0"
which = "=6.0.3"
kvm-ioctls = "=0.19.1"
kvm-bindings = "=0.10.0"
vm-memory = { version = "=0.17.1", features = ["backend-mmap"] }
linux-loader = { version = "=0.13.2", features = ["bzimage"] }
tokio = { version = "=1.54.1", features = ["time"] }
