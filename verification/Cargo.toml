[package]
name = "localsearch"
version = "0.1.0"
edition = "2021"
publish = false

[dependencies]
memory-stats = "=1.2.0"
rusqlite = { version = "=0.41.1", features = ["bundled"] }
serde = { version = "=1.0.229", features = ["derive"] }
serde_json = "=1.0.154"
sha2 = "=0.10.9"
sysinfo = "=0.40.1"
tantivy = "=0.27.0"
tempfile = "=3.27.0"
thiserror = "=2.0.21"
time = { version = "=0.3.55", features = ["formatting"] }
unicode-normalization = "=0.1.26"
windows-sys = { version = "*", features = [
    "Win32_Foundation",
    "Win32_Security",
    "Win32_Security_Authorization",
    "Win32_Storage_FileSystem",
    "Win32_System_IO",
    "Win32_System_Ioctl",
    "Win32_System_Performance",
    "Win32_System_Pipes",
    "Win32_System_Power",
    "Win32_System_SystemInformation",
    "Win32_System_SystemServices",
    "Win32_System_Threading",
    "Win32_UI_Input_KeyboardAndMouse",
] }
