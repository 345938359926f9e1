[package]
name = "tether"
version = "0.1.0"
edition = "2021"
publish = false

[dependencies]
ash = "=0.38.0"
enigo = { version = "=0.6.1", default-features = false, features = ["x11rb"] }
evdev = "=0.13.2"
getrandom = "=0.4.3"
hex = "=0.4.3"
hkdf = "=0.13.0"
hmac = "=0.13.0"
libc = "=0.2.191"
png = "=0.18.1"
pollster = "=1.0.1"
serde = { version = "1", features = ["derive"] }
serde_json = "1"
sha2 = "=0.11.1"
spake2 = "=0.4.0"
subtle = "=2.6.1"
thiserror = "2"
tokio = { version = "1", features = ["io-util", "io-std", "sync", "rt", "macros"] }
tracing = "0.1"
wgpu = "=30.0.1"
windows = { version = "=0.59.0", features = ["Win32_Foundation", "Win32_Security", "Win32_Security_Authorization", "Win32_Storage_FileSystem", "Win32_System_Threading"] }
