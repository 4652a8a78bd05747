[package]
name = "tabbed_documents"
version = "0.1.0"
edition = "2021"
publish = false

[dependencies]
eframe = { version = "=0.32.3", default-features = false, features = ["persistence", "x11"] }
egui = "=0.32.3"
egui_dock = { version = "=0.17.0", features = ["serde"] }
egui_extras = { version = "=0.32.3", features = ["file", "image"] }
egui-i18n = { version = "=0.2.0", features = ["fluent"] }
egui_inbox = "=0.9.0"
egui_material_icons = "=0.4.0"
egui_taffy = "=0.8.1"
image = { version = "=0.25.10", default-features = false, features = ["bmp", "jpeg", "png"] }
log = "=0.4.34"
serde = { version = "=1.0.229", features = ["derive"] }
serde_json = "=1.0.154"
slotmap = { version = "=1.1.1", features = ["serde"] }
url = "=2.5.8"
validator = { version = "=0.20.0", features = ["derive"] }
