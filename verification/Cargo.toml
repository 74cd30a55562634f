[package]
name = "papers_editor"
version = "0.1.0"
edition = "2021"
publish = false

[dependencies]
gtk4 = "*"
sourceview5 = "*"
libadwaita = "*"
gio = "*"
glib = "*"
