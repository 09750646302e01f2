[package]
name = "powercurve"
version = "0.4.0"
edition = "2021"
publish = false

[dependencies]
glob = "0.3"
regex = "1"
anyhow = "1"
thiserror = "1"
log = "0.4"
serde = { version = "1", features = ["derive"] }
toml = "0.8"
tokio = { version = "1", features = ["macros", "rt", "signal", "time", "sync"] }
zbus = { version = "3", default-features = false, features = ["tokio"] }
zvariant = "3"
futures-lite = "2"
sysfs-class = "0.1"
intel-pstate = "1"
libc = "0.2"
dirs = "5"
