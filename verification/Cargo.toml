[package]
name = "openshell"
version = "0.1.0"
edition = "2021"
publish = false

[dependencies]
futures = "=0.3.34"
hex = "=0.4.3"
hmac = "=0.12.1"
hyper-util = { version = "=0.1.21", features = ["tokio"] }
k8s-openapi = { version = "=0.24.0", features = ["latest"] }
kube = { version = "=0.98.0", default-features = false, features = ["client"] }
libc = "=0.2.191"
prost = "=0.13.5"
ratatui = { version = "=0.26.3", default-features = false }
russh = { version = "=0.54.5", default-features = false, features = ["ring"] }
sha2 = "=0.10.9"
tokio = { version = "=1.54.1", features = ["full"] }
tokio-stream = "=0.1.19"
tonic = "=0.12.3"
tower = { version = "=0.5.3", features = ["util"] }
tracing = "=0.1.44"
uuid = { version = "=1.29.0", features = ["v4"] }
