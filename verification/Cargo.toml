[package]
name = "rs2sky"
version = "0.1.0"
edition = "2021"
publish = false

[dependencies]
uuid = { version = "1", features = ["v4"] }
tokio = { version = "1", features = ["rt-multi-thread", "macros", "sync"] }
tonic = "0.9"
prost = "0.11"
hyper = { version = "0.14", features = ["client", "server", "http1", "tcp"] }
async-stream = "0.3"
structopt = "0.3"

[dev-dependencies]
base64 = "0.13"
