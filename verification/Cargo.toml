[package]
name = "spimdisasm"
version = "0.1.0"
edition = "2021"
publish = false

[dependencies]
rabbitizer = { version = "=2.0.0-alpha.9", features = ["all_isas"] }
object = "=0.40.0"
bitflags = "=2.13.2"
clap = { version = "=4.6.7", features = ["derive"] }
