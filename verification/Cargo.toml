[package]
name = "serde_ipc"
version = "0.1.0"
edition = "2021"
publish = false

[dependencies]
rand = "0.8"
serde = { version = "1", features = ["derive"] }
serde_json = "1"
libloading = "0.8"
libc = "0.2"
confy = "0.6"
shellexpand = "3"
threadpool = "1"
num_cpus = "1"
tokio = { version = "1", features = ["rt-multi-thread", "net", "io-util"] }
pyo3 = "*"
