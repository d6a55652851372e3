[package]
name = "im-switch"
version = "0.2.0"
edition = "2021"
publish = false

[dependencies]
fcitx5-dbus = "*"
clap = { version = "4", features = ["derive"] }
thiserror = "*"
