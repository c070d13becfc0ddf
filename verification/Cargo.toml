[package]
name = "brute_search"
version = "0.1.0"
edition = "2021"
publish = false

[dependencies]
num_cpus = "1"
jni = { version = "0.21", features = ["invocation"] }
log = "0.4"
env_logger = "0.10"
chrono = "0.4"
error-stack = "0.4"
