[package]
name = "upstream_pool"
version = "0.1.0"
edition = "2021"
publish = false

[dependencies]
async-trait = "=0.1.92"
env_logger = "=0.10.2"
log = "=0.4.34"
pingora-core = "=0.1.1"
pingora-load-balancing = "=0.1.1"
pingora-proxy = "=0.1.1"
structopt = "=0.3.26"
tokio = { version = "1", features = ["macros", "net", "rt", "sync", "time"] }
