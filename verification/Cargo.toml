[package]
name = "egui_d3d11"
version = "0.1.0"
edition = "2021"
publish = false

[dependencies]
egui = "*"
egui_extras = { version = "*", features = ["image"] }
windows = { version = "*", features = [
    "Win32_Foundation",
    "Win32_Graphics_Direct3D",
    "Win32_Graphics_Direct3D11",
    "Win32_Graphics_Direct3D_Fxc",
    "Win32_Graphics_Dxgi",
    "Win32_Graphics_Dxgi_Common",
    "Win32_System_DataExchange",
    "Win32_System_Memory",
    "Win32_System_SystemServices",
    "Win32_UI_WindowsAndMessaging",
] }
parking_lot = "*"
once_cell = "*"
faithe = "*"
sunshine = "*"
