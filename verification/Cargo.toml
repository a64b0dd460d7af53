[package]
name = "bbmodel"
version = "0.1.0"
edition = "2021"
publish = false

[dependencies]
base64 = "=0.22.1"
serde = { version = "=1.0.229", features = ["derive"] }
serde_json = "=1.0.154"
serde_with = "=3.24.0"
uuid = { version = "=1.29.0", features = ["serde"] }
bevy_app = { version = "=0.20.1", default-features = false }
bevy_asset = { version = "=0.20.1", default-features = false }
bevy_color = { version = "=0.20.1", default-features = false }
bevy_common_assets = { version = "=0.18.0", default-features = false, features = ["json"] }
bevy_ecs = { version = "=0.20.1", default-features = false }
bevy_image = { version = "=0.20.1", default-features = false, features = ["png"] }
bevy_log = { version = "=0.20.1", default-features = false }
bevy_mesh = { version = "=0.20.1", default-features = false }
bevy_reflect = { version = "=0.20.1", default-features = false }
bevy_transform = { version = "=0.20.1", default-features = false }
