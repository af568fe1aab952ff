[package]
name = "lamina"
version = "0.1.0"
edition = "2021"
publish = false

[dependencies]
dynasmrt = "*"
iced-x86 = { version = "*", default-features = false, features = ["std", "decoder", "intel"] }
nix = { version = "*", features = ["fs", "sched", "ioctl"] }
