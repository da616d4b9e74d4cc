[package]
name = "minicraft"
version = "0.1.0"
edition = "2021"
publish = false

[dependencies]
bevy = { version = "=0.9.1", default-features = false, features = ["bevy_asset", "bevy_winit", "bevy_core_pipeline", "bevy_render", "bevy_sprite", "bevy_text", "bevy_ui", "png", "x11"] }
bevy_asset_loader = { version = "=0.14.1", features = ["2d"] }
bevy_ecs_tilemap = "=0.9.0"
bevy-inspector-egui = { version = "0.14", default-features = false, features = ["bevy_sprite", "bevy_text", "bevy_ui"] }
bevy_rapier2d = { version = "=0.19.0", default-features = false, features = ["dim2", "debug-render"] }
bracket-noise = "=0.8.7"
rand = "=0.8.8"
