[package]
name = "tonic-ws-transport"
version = "0.1.0"
edition = "2021"
publish = false

[dependencies]
bytes = "1"
cfg-if = "1"
futures-util = { version = "0.3", features = ["sink"] }
headers = "0.3"
http = "0.2"
hyper = { version = "0.14", features = ["client", "http2"] }
js-sys = "0.3"
pin-project = "1"
thiserror = "1"
tokio = { version = "1", features = ["io-util"] }
tokio-tungstenite = "0.16"
tokio-util = { version = "0.6", features = ["io"] }
tonic = "0.6"
tower = "0.4"
tower-service = "0.3"
tungstenite = "0.16"
wasm-bindgen = "0.2"
