[package]
name = "rally"
version = "0.1.0"
edition = "2021"
publish = false

[dependencies]
crossbeam-channel = "0.5"
futures = "0.3"
futures-timer = "3"
http-body-util = "0.1"
hyper = { version = "1", features = ["client", "http1"] }
hyper-util = { version = "0.1", features = ["client-legacy", "http1", "tokio"] }
lazy_static = "1"
mio = { version = "1", features = ["os-poll", "net"] }
num_cpus = "1"
pin-project-lite = "0.2"
rusoto_core = { version = "0.48", default-features = false, features = ["rustls"] }
rusoto_ec2 = { version = "0.48", default-features = false, features = ["rustls"] }
tokio = { version = "1", features = ["net", "io-util", "rt"] }
tower = { version = "0.4", features = ["util"] }
