[package]
name = "sw_convert"
version = "0.1.0"
edition = "2021"
publish = false

[dependencies]
chrono = "0.4"
nom = "7"
serde_json = "1"
envconfig = "*"
reqwest = { version = "*", default-features = false }
rumqttc = "*"
tokio = { version = "1", features = ["macros", "rt-multi-thread", "time"] }
