[package]
name = "sandbox_acl"
version = "0.1.0"
edition = "2021"
publish = false

[dependencies]
anyhow = "1"
windows-sys = { version = "0.52", features = ["Win32_Foundation", "Win32_Security", "Win32_Security_Authorization", "Win32_Storage_FileSystem", "Win32_System_IO", "Win32_System_Kernel"] }
