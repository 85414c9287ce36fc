[package]
name = "deepx"
version = "0.1.0"
edition = "2021"
publish = false

[dependencies]
spinning_top = "=0.4.0"
limine = "=0.5.0"
x86_64 = { version = "=0.15.5", default-features = false, features = ["instructions"] }
linked_list_allocator = "=0.10.6"
bitflags = "=2.13.2"
