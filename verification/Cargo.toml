[package]
name = "guru"
version = "0.1.0"
edition = "2021"
publish = false

[dependencies]
cairo-rs = "0.9"
gdk = "0.13"
gio = "0.9"
glib = "0.10"
gtk = "0.9"
