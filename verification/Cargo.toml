[package]
name = "astral_wfp"
version = "0.1.0"
edition = "2021"
publish = false

[dependencies]
serde = { version = "1", features = ["derive"] }
serde_json = "1"
windows = { version = "0.52", features = ["Win32_Foundation", "Win32_Security", "Win32_NetworkManagement_WindowsFilteringPlatform", "Win32_System_Rpc", "Win32_System_Console", "Win32_Storage_FileSystem"] }
