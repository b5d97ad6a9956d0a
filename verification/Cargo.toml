[package]
name = "native-memory-scripter"
version = "0.1.0"
edition = "2021"
publish = false

[dependencies]
arrayvec = "=0.7.8"
capstone = "=0.14.0"
symbolic-common = "=13.9.0"
symbolic-demangle = "=13.9.0"
pelite = "=0.10.0"
windows = { version = "=0.56.0", features = ["Win32_Foundation", "Win32_System_Memory", "Win32_System_SystemInformation", "Win32_System_Diagnostics_ToolHelp", "Win32_System_Diagnostics_Debug", "Win32_System_Kernel", "Win32_System_LibraryLoader", "Win32_System_ProcessStatus", "Win32_System_Threading", "Win32_System_Console", "Win32_System_SystemServices", "Win32_System_WindowsProgramming"] }
thiserror = "=2.0.21"
eyre = "=0.6.14"
color-eyre = "=0.6.5"
serde = { version = "=1.0.229", features = ["derive"] }
toml = "=1.1.8"
tracing = "=0.1.44"
tracing-subscriber = { version = "=0.3.23", features = ["env-filter"] }
tracing-appender = "=0.2.5"
tracing-error = "=0.2.1"
strip-ansi-escapes = "=0.2.1"
walkdir = "=2.5.0"
keystone-engine = "=0.1.0"
