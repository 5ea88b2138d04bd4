[package]
name = "dylib_reload"
version = "0.1.0"
edition = "2021"
publish = false

[dependencies]
libc = "=0.2.191"
libloading = "=0.9.0"
stabby = { version = "=72.1.16", features = ["libloading"] }
backtrace = "=0.3.77"
