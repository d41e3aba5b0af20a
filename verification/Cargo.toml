[package]
name = "vimouse"
version = "0.1.0"
edition = "2021"
publish = false

[dependencies]
font8x8 = "0.3"
rdev = { version = "0.5", features = ["unstable_grab"] }
winit = { version = "0.28", default-features = false, features = ["x11"] }
softbuffer = "0.2"
pixels = "0.13"
ctrlc = "3"
fs2 = "0.4"
x11-dl = "2"
windows-sys = { version = "0.59", features = ["Win32_Foundation", "Win32_Graphics_Gdi", "Win32_UI_WindowsAndMessaging", "Win32_UI_Input_KeyboardAndMouse", "Win32_System_Registry"] }
core-foundation = "0.9"
core-graphics = "0.23"
objc = "0.2"
foreign-types-shared = "0.3"
