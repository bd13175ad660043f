[package]
name = "greed_of_exile"
version = "0.1.0"
edition = "2021"
publish = false

[dependencies]
url = "2"
chrono = "0.4"
serde = { version = "1", features = ["derive"] }
serde_json = "1"
anyhow = "1"
reqwest = { version = "0.12", default-features = false, features = ["json", "rustls-tls"] }
tokio = { version = "1", features = ["rt-multi-thread", "time"] }
directories = "6"
eframe = { version = "0.33", default-features = false, features = ["glow", "x11", "default_fonts"] }
egui_extras = { version = "0.33", default-features = false, features = ["image", "file"] }
egui_plot = { version = "0.34", default-features = false }
image = { version = "0.25", default-features = false, features = ["png"] }
