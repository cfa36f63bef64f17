[package]
name = "vg"
version = "0.1.0"
edition = "2021"
publish = false

[dependencies]
fxhash = "0.2"
png = "0.16"
serde = { version = "1", features = ["derive"] }
bincode = "1"
nanoserde = "0.1"
laminar = "0.5"
gilrs = "0.8"
log = "0.4"
