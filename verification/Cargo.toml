[package]
name = "sprite_gl_renderer"
version = "0.1.0"
edition = "2021"
publish = false

[dependencies]
gl = "=0.14.0"
glutin = "=0.21.2"
mat3 = "=0.2.1"
mat4 = "=0.2.1"
time = "=0.1.45"
