[package]
name = "cute_borders"
version = "0.1.0"
edition = "2021"
publish = false

[dependencies]
serde = { version = "1", features = ["derive"] }
serde_yaml = "*"
lazy_static = "1"
winapi = { version = "0.3", features = ["winuser", "dwmapi", "wingdi", "winerror", "windef", "minwindef", "winnt", "shellapi", "d2d1", "d2d1_1", "dcommon", "d3d9types", "shellscalingapi", "basetsd", "dxgiformat", "unknwnbase", "libloaderapi", "impl-default"] }
winreg = "*"
wio = "0.2"
tray-icon = "*"
planif = "*"
check_elevation = "*"
open = "*"
