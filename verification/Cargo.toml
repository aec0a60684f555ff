[package]
name = "rustom_runtime"
version = "0.1.0"
edition = "2021"
publish = false

[dependencies]
flume = "0.11"
async-task = "4"
futures-lite = "2"
log = "0.4"
mio = { version = "1", features = ["os-poll", "net"] }
