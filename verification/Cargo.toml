[package]
name = "body-image"
version = "3.0.0"
edition = "2021"
publish = false

[dependencies]
blocking-permit = { version = "=1.3.3", features = ["cleaver", "futures-intrusive", "yield-stream"] }
brotli = "=3.5.0"
bytes = "=1.1.0"
clap = "=2.34.0"
flate2 = "=1.1.10"
futures-core = "=0.3.34"
futures-sink = "=0.3.34"
futures-util = { version = "=0.3.34", features = ["sink"] }
http = "=0.2.12"
http-body = "=0.4.6"
httparse = "=1.10.1"
hyper = { version = "=0.14.32", features = ["client", "http1", "http2", "runtime", "stream", "tcp"] }
hyper-tls = "=0.5.0"
hyperx = "=1.4.0"
libc = "=0.2.191"
log = "=0.4.35"
memmap = "=0.7.0"
mime = "=0.3.17"
olio = "=1.4.0"
tao-log = "=1.0.1"
tempfile = "=3.27.0"
tokio = { version = "=1.43.4", features = ["rt-multi-thread", "sync", "time"] }
