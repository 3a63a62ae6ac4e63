[package]
name = "rlsl"
version = "0.1.0"
edition = "2021"
publish = false

[dependencies]
rspirv = "=0.5.4"
spirv_headers = "=1.3.4"
quickcheck = "=0.6.2"
gfx-hal = "0.4"
gfx-backend-vulkan = { version = "0.4", default-features = false }
