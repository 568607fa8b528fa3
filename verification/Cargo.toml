[package]
name = "conveyor"
version = "0.1.0"
edition = "2021"
publish = false

[dependencies]
bevy = { version = "0.10", default-features = false, features = ["bevy_asset", "bevy_core_pipeline", "bevy_render", "bevy_sprite", "png"] }
bevy_ecs_tilemap = "0.10"
bevy_egui = { version = "0.20", default-features = false, features = ["default_fonts"] }
bevy_pixel_camera = "0.4"
