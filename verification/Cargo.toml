[package]
name = "boardgames"
version = "0.1.0"
edition = "2021"
publish = false

[dependencies]
bitmaps = "2"
typenum = "1"
rand = "0.7"
rand_distr = "0.2"
rulinalg = "0.4"
ordered-float = "1"
sdl2 = { version = "0.34", features = ["image", "ttf"] }
serde = { version = "1", features = ["derive"] }
