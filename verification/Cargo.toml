[package]
name = "nvidia_oc"
version = "0.1.0"
edition = "2021"
publish = false

[dependencies]
clap = { version = "4", features = ["derive"] }
clap_complete = "4"
nvml-wrapper = "*"
nvml-wrapper-sys = "*"
serde = { version = "1", features = ["derive"] }
serde_json = "1"
sudo2 = "*"
which = "*"
