[package]
name = "weave_agent"
version = "0.1.0"
edition = "2021"
publish = false

[dependencies]
eyre = "0.6"
prost-types = "0.14"
reqwest = { version = "0.13", default-features = false, features = ["rustls"] }
rustls = "0.23"
rustls-pemfile = "2"
thiserror = "2"
tokio = { version = "1", features = ["fs", "macros", "rt"] }
tonic = { version = "0.14", default-features = false, features = ["channel", "tls-aws-lc"] }
tracing = "0.1"
x509-parser = "0.18"

[dev-dependencies]
rcgen = { version = "0.14", default-features = false, features = ["crypto", "pem", "aws_lc_rs"] }
