[package]
name = "win_dedupe"
version = "0.1.0"
edition = "2021"
publish = false

[dependencies]
anyhow = "1"
mft = "0.6"
ntfs = "0.4"
windows = { version = "0.52", features = ["Win32_Foundation", "Win32_Security", "Win32_Storage_FileSystem", "Win32_System_IO", "Win32_System_Ioctl"] }
