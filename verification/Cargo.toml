[package]
name = "fingerboard"
version = "0.1.0"
edition = "2021"
publish = false

[dependencies]
input_event_codes_hashmap = "=0.1.1"
serde = { version = "1", features = ["derive"] }
serde_yaml = "0.8"
log = "0.4"
pretty_env_logger = "0.4"
locale_config = "0.3"
home = "0.5"
tempfile = "3"
memmap = "0.7"
libc = "0.2"
gtk = "0.9"
gdk = "0.13"
gdk-sys = "0.10"
glib = "0.10"
cairo-rs = "0.9"
relm = "0.21"
relm-derive = "0.21"
gtk-layer-shell = "0.2"
wayland-client = "0.28"
wayland-protocols = { version = "0.28", features = ["client", "unstable_protocols"] }
dbus = "0.9"
dbus-crossroads = "0.3"
