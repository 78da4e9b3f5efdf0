[package]
name = "fastsend"
version = "0.1.0"
edition = "2021"
publish = false

[dependencies]
chrono = "0.4"
crossbeam = "0.8"
futures = "0.3"
futures-locks = "0.7"
lazy_static = "1.4"
md5 = "0.7"
rand = "0.8"
rand_chacha = "0.3"
sha1 = "0.10"
thiserror = "1"
