[package]
name = "trycp_server"
version = "0.1.0"
edition = "2021"
publish = false

[dependencies]
url = "=2.5.8"
in_stream = "=0.0.52-alpha2"
jsonrpc-core = "=18.0.0"
jsonrpc-ws-server = "=18.0.0"
nix = { version = "=0.31.3", features = ["signal", "process"] }
reqwest = { version = "=0.13.5", default-features = false, features = ["blocking", "native-tls"] }
serde = "=1.0.104"
serde_derive = "=1.0.104"
serde_json = "=1.0.47"
structopt = "=0.3.26"
tempfile = "=3.27.0"
url2 = "=0.0.4"
