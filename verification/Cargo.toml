[package]
name = "companion"
version = "0.1.0"
edition = "2021"
publish = false

[dependencies]
coreaudio-sys = "=0.2.18"
cpal = "=0.17.3"
discord-rich-presence = "=1.1.0"
flume = "=0.11.1"
mdns-sd = "=0.13.11"
serde = { version = "=1.0.229", features = ["derive"] }
serde_json = "=1.0.154"
windows = { version = "=0.62.2", features = ["Win32_Foundation", "Win32_Media_Audio", "Win32_Media_Audio_Endpoints", "Win32_System_Com", "Win32_System_Com_StructuredStorage", "Win32_System_Variant"] }
