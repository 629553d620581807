[package]
name = "diskbench"
version = "0.1.0"
edition = "2021"
publish = false

[dependencies]
clap = "*"
winapi = { version = "0.3", features = ["fileapi", "winbase", "winnt", "memoryapi", "minwindef", "handleapi", "errhandlingapi"] }
windows = { version = "*", features = ["Win32_Foundation", "Win32_Storage_FileSystem", "Win32_System_Ioctl", "Win32_System_IO"] }
windows-drives = "*"
powershell_script = "*"
sysinfo = "*"
affinity = "*"
