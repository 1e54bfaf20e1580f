[package]
name = "tf_doom"
version = "0.1.0"
edition = "2021"
publish = false

[dependencies]
execute = "0.2"
structopt = "0.3"
uuid = { version = "1", features = ["v4"] }
