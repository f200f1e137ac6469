[package]
name = "egl_screencast"
version = "0.1.0"
edition = "2021"
publish = false

[dependencies]
anyhow = "1"
async-channel = "2"
async-io = "2"
bitflags = { version = "2", features = ["serde"] }
bytemuck = { version = "1", features = ["derive"] }
ctor = "0.2"
drm = "0.12"
drm-fourcc = "=2.2.0"
fs4 = "0.8"
futures-util = { version = "0.3", features = ["io", "sink"] }
gbm = { version = "0.15", default-features = false, features = ["drm-support"] }
libc = "0.2"
libffi = "3"
oneshot = "0.1"
pin-project = "1"
pipewire = "0.8"
random-string = "=1.1.0"
serde = { version = "1", features = ["derive"] }
serde_json = "1"
slotmap = "=1.1.1"
smallvec = { version = "=1.16.4", features = ["serde", "union"] }
smol = "2"
tracing = "0.1"
tracing-subscriber = "0.3"
x11rb = { version = "0.13", features = ["allow-unsafe-code", "xfixes", "randr"] }
x11rb-async = { version = "0.13", features = ["randr"] }
xdg = "2"
zbus = "4"
zvariant = "4"
