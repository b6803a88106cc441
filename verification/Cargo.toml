[package]
name = "game_in_rust"
version = "0.1.0"
edition = "2021"
publish = false

[dependencies]
nalgebra = "0.25"
nalgebra-glm = "0.11"
gl = "0.14"
sdl2 = "0.34"
failure = "0.1"
walkdir = "2"
fs_extra = "1"
notify = "4"
image = "0.23"
gltf = "0.15"
rand = "0.8"
noise = "0.7"
tobj = "2"
obj = "0.10"
roxmltree = "0.14"
bvh_anim = "*"
stringreader = "*"
vec-2-10-10-10 = "*"
