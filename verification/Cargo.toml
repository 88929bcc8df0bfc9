[package]
name = "rpc_perf"
version = "0.1.0"
edition = "2021"
publish = false

[dependencies]
rand = { version = "0.8", features = ["small_rng"] }
rand_distr = "0.4"
rand_xoshiro = "0.6"
zipf = "=7.0.0"
ratelimit = "=0.5.1"
heatmap = "0.7"
tokio = { version = "1", features = ["full"] }
async-channel = "1"
hyper = { version = "1", features = ["client", "http1", "http2"] }
http-body-util = "0.1"
bytes = "1"
