[package]
name = "sidecar_proxy"
version = "0.1.0"
edition = "2021"
publish = false

[dependencies]
rustls-webpki = { version = "0.101", features = ["alloc", "std"] }
tokio = { version = "=1.54.1", features = ["macros", "rt", "time", "sync", "net", "io-util"] }
tokio-rustls = "0.24"
hyper = { version = "=0.14.32", features = ["server", "http1", "http2", "runtime"] }
tower = { version = "=0.4.13", features = ["util", "buffer"] }
futures = "=0.3.34"
drain = "=0.1.2"
tonic = "=0.14.6"
linkerd2-proxy-api = { version = "=0.20.0", features = ["destination"] }
tracing = "=0.1.44"
