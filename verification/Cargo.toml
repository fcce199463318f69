[package]
name = "cmd_lib"
version = "0.1.0"
edition = "2021"
publish = false

[dependencies]
faccess = "0.2"
lazy_static = "1"
log = "0.4"
os_pipe = "1"
proc-macro2 = { version = "1", features = ["span-locations"] }
proc-macro-error = "1"
quote = "1"
syn = "1"
