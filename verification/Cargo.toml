[package]
name = "terrain_map"
version = "0.1.0"
edition = "2021"
publish = false

[dependencies]
futures = "0.3"
image = { version = "*", default-features = false, features = ["png"] }
opensimplex_noise_rs = "*"
rand = "0.7"
sdl2 = { version = "*", features = ["image"] }
tokio = { version = "1", features = ["macros", "rt-multi-thread"] }
