[package]
name = "sprinkles_os"
version = "0.1.0"
edition = "2021"
publish = false

[dependencies]
crossbeam = { version = "=0.8.5", default-features = false, features = ["alloc"] }
x86_64 = { version = "=0.14.13", default-features = false, features = ["instructions"] }
ansi-parser = { version = "=0.9.1", default-features = false }
pc-keyboard = "=0.5.1"
spin = "=0.9.9"
volatile = "=0.2.7"
lazy_static = { version = "=1.5.1", features = ["spin_no_std"] }
conquer-once = { version = "=0.4.0", default-features = false }
futures-util = { version = "=0.3.34", default-features = false, features = ["alloc"] }
bootloader = { version = "=0.9.35", features = ["map_physical_memory"] }
bootloader_api = "=0.11.17"
pic8259 = "=0.10.4"
