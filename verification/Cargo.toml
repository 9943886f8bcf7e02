[package]
name = "raytracer"
version = "0.1.0"
edition = "2021"
publish = false

[dependencies]
rand = "=0.8.8"
image = { version = "=0.24.9", default-features = false, features = ["jpeg"] }
indicatif = "=0.16.2"
# indicatif asks for console without default features, and builds only with
# its std feature on.
console = { version = "=0.16.6", features = ["std"] }
nalgebra = "=0.32.6"
crossbeam = "=0.8.5"
chrono = "=0.4.45"
tobj = "=4.0.5"
opencv = "=0.88.9"
