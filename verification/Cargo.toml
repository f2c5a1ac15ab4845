[package]
name = "lottery"
version = "0.1.0"
edition = "2021"
publish = false

[dependencies]
rand = "0.4"
iron = "0.6"
router = "0.6"
urlencoded = "0.6"
hyper = "0.10"
hyper-native-tls = "0.3"
rustc-serialize = "0.3"
log = "0.4"
env_logger = "*"
