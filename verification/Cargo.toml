[package]
name = "kpshell"
version = "0.1.0"
edition = "2021"
publish = false

[dependencies]
base64 = "0.21"
clap = { version = "4", features = ["derive", "env"] }
fst = "0.4"
keepass = "0.6"
rustyline = "11"
shlex = "1"
totp-rs = { version = "5", features = ["otpauth"] }
uuid = "1"
