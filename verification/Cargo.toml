[package]
name = "posix_portable_filename"
version = "0.2.2"
edition = "2021"
publish = false

[dependencies]
arbitrary = "1"
serde = "1"
thiserror = "2"

[dev-dependencies]
arbtest = "0.3"
