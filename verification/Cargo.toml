[package]
name = "mandelbrot"
version = "0.1.0"
edition = "2021"
publish = false

[dependencies]
gdk-pixbuf = "0.8"
gio = "0.8"
glib = "0.9"
gtk = "0.8"
ndarray = { version = "0.13", features = ["rayon"] }
num-complex = "0.2"
