[package]
name = "dexlauncher"
version = "0.2.0"
edition = "2021"
publish = false

[dependencies]
tokio-util = "*"
sha2 = "*"
hex = "*"
crc32fast = "*"
steam_shortcuts_util = "*"
sysinfo = "*"
image = { version = "*", default-features = false, features = ["png", "jpeg"] }
directories = "*"
zip = { version = "*", default-features = false, features = ["deflate"] }
walkdir = "*"
dirs = "*"
shellexpand = "*"
uuid = { version = "*", features = ["v4"] }
chrono = "*"
libc = "*"
serde = { version = "*", features = ["derive"] }
serde_json = "*"
tokio = { version = "*", features = ["full"] }
tracing = "*"
tracing-subscriber = "*"
rusqlite = { version = "*", features = ["bundled"] }
r2d2 = "*"
r2d2_sqlite = "*"
reqwest = { version = "*", default-features = false, features = ["json"] }
curl = "*"
