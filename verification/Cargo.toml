[package]
name = "tray_menu"
version = "0.1.0"
edition = "2021"
publish = false

[dependencies]
png = "*"
dpi = "0.1"
x11rb = "0.13"
once_cell = "1"
windows-sys = { version = "0.59", features = ["Win32_Foundation", "Win32_UI_WindowsAndMessaging", "Win32_UI_Shell", "Win32_System_SystemServices", "Win32_Graphics_Gdi", "Win32_System_LibraryLoader"] }
objc2 = "0.6"
objc2-foundation = "0.3"
objc2-app-kit = "0.3"
objc2-core-foundation = "0.3"
objc2-core-graphics = "0.3"
gtk = "0.18"
cxx = "1"
cxx-qt-lib = "*"
