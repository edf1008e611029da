[package]
name = "inside_overlay"
version = "0.1.0"
edition = "2021"
publish = false

[dependencies]
device_query = "1"
image = "0.23"
imageproc = "0.22"
pixels = "0.9"
rusttype = "0.9"
winapi = { version = "0.3", features = ["dwmapi", "memoryapi", "processthreadsapi", "psapi", "windef", "winnt", "winuser"] }
winit = "0.26"
