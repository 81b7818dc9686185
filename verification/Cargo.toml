[package]
name = "virtio_gpu_nv"
version = "0.1.0"
edition = "2021"
publish = false

[dependencies]
libc = "0.2"
log = "0.4"
anyhow = "1"
clap = { version = "4", features = ["derive"] }
tokio = { version = "1", features = ["rt-multi-thread", "macros", "net", "io-util", "sync", "signal"] }
tracing = "0.1"
tracing-subscriber = { version = "0.3", features = ["env-filter"] }
kvm-bindings = "*"
kvm-ioctls = "*"
nix = { version = "0.30", features = ["fs"] }
vm-memory = { version = "*", features = ["backend-mmap"] }
