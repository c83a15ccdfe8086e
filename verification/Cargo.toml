[package]
name = "bluetooth_battery"
version = "0.1.0"
edition = "2021"
publish = false

[dependencies]
hex = "0.4"
macaddr = "1.0"
windows = { version = "0.48", features = ["Win32_Foundation", "Win32_Devices_Bluetooth", "Win32_Networking_WinSock"] }
