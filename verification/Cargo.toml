[package]
name = "tid"
version = "0.1.0"
edition = "2021"
publish = false

[dependencies]
fleck = "=0.2.0"
psf2 = "=0.4.0"
battery = "=0.7.8"
chrono = "=0.4.45"
cocoa = "*"
lexopt = "=0.3.2"
mpd = "=0.1.0"
objc = "=0.2.7"
pixels = "=0.13.0"
sysinfo = "=0.29.11"
winit = "=0.28.7"
winit_input_helper = "=0.14.1"
