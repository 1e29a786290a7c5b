[package]
name = "vibe_framebuffer"
version = "0.1.0"
edition = "2021"
publish = false

[dependencies]
fdt = "=0.1.5"
limine = "=0.5.0"
linked_list_allocator = "=0.10.6"
spleen-font = { version = "=0.2.0", features = ["s5x8", "s8x16", "s12x24", "s16x32"] }
