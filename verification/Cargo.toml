[package]
name = "hayro"
version = "0.1.0"
edition = "2021"
publish = false

[dependencies]
smallvec = "1"
pic-scale = "*"
moxcms = "*"
vello_cpu = "*"
kurbo = "*"
bytemuck = "*"
fearless_simd = "*"
