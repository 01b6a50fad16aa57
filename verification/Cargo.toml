[package]
name = "bevy_gpui"
version = "0.1.0"
edition = "2021"
publish = false

[dependencies]
anyhow = "1"
arboard = { version = "3", default-features = false }
bevy_app = "0.19"
bevy_asset = { version = "0.19", default-features = false }
bevy_camera = { version = "0.19", default-features = false }
bevy_core_pipeline = { version = "0.19", default-features = false }
bevy_ecs = "0.19"
bevy_image = { version = "0.19", default-features = false }
bevy_input = "0.19"
bevy_log = { version = "0.19", default-features = false }
bevy_math = "0.19"
bevy_picking = { version = "0.19", default-features = false }
bevy_render = { version = "0.19", default-features = false }
bevy_tasks = "0.19"
bevy_window = "0.19"
bevy_winit = { version = "0.19", default-features = false, features = ["x11"] }
futures = { version = "0.3", default-features = false, features = ["std"] }
futures-timer = "3"
open = "5"
raw-window-handle = "0.6"
uuid = { version = "1", default-features = false }
