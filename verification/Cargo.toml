[package]
name = "evo-kiosk"
version = "0.1.13"
edition = "2021"
publish = false

[dependencies]
gio = "0.20"
glib = "0.20"
gtk4 = "0.9"
serde = { version = "1", features = ["derive"] }
serde_json = "1"
socket2 = "0.5"
thiserror = "1"
url = "2"
webkit6 = "0.4"
