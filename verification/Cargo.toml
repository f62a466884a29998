[package]
name = "nacelle"
version = "0.1.0"
edition = "2021"
publish = false

[dependencies]
bytes = "1"
futures-core = "0.3"
http = "1"
http-body-util = "0.1"
hyper = { version = "1", features = ["http1", "server"] }
hyper-util = { version = "0.1", features = ["tokio"] }
libmimalloc-sys = { version = "0.1", features = ["extended"] }
metrics = "0.24"
mimalloc = "0.1"
opentelemetry = { version = "*", features = ["metrics"] }
pem = "3"
rcgen = { version = "0.14", default-features = false, features = ["crypto", "pem", "ring"] }
rustls = { version = "0.23", default-features = false, features = ["logging", "ring", "std", "tls12"] }
tokio = { version = "1", features = ["io-util", "macros", "net", "rt-multi-thread", "signal", "sync", "time"] }
tokio-rustls = { version = "0.26", default-features = false, features = ["logging", "ring", "tls12"] }
tokio-util = "0.7"
tower = { version = "*", features = ["util"] }
tracing = "0.1"
