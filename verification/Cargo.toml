[package]
name = "ajemi"
version = "0.1.0"
edition = "2021"
publish = false

[dependencies]
chrono = "0.4"
fern = "0.6"
log = "0.4"
winreg = "0.51"

[dependencies.windows]
version = "0.51"
features = [
    "implement",
    "Win32_Foundation",
    "Win32_System_Com",
    "Win32_System_Variant",
    "Win32_System_Ole",
    "Win32_UI_TextServices",
    "Win32_UI_Input_KeyboardAndMouse",
]
